use akane::minify::{finish_script, minify_js_simple, strip_script};

#[test]
fn comments_and_needless_white_space_go() {
    assert_eq!(minify_js_simple("a  =  1 ; // c\nb = 2;"), "a=1;b=2");
    assert_eq!(minify_js_simple("a/* c */b"), "a b");
    assert_eq!(minify_js_simple("/* head */\n  let x = 1;\n"), "let x=1");
    assert_eq!(minify_js_simple(""), "");
    assert_eq!(minify_js_simple("   \n\t "), "");
    assert_eq!(minify_js_simple("// only a comment"), "");
    assert_eq!(minify_js_simple("/* never closed"), "");
}

#[test]
fn spaces_stay_where_tokens_would_merge() {
    assert_eq!(minify_js_simple("return  x"), "return x");
    assert_eq!(minify_js_simple("a + +b"), "a+ +b");
    assert_eq!(minify_js_simple("a - -b"), "a- -b");
    assert_eq!(minify_js_simple("a + b"), "a+b");
    assert_eq!(minify_js_simple("typeof $x"), "typeof $x");
    assert_eq!(minify_js_simple("a _b"), "a _b");
    assert_eq!(minify_js_simple("é ü"), "é ü");
}

#[test]
fn semicolons_before_braces_and_at_the_end_go() {
    assert_eq!(minify_js_simple("function f() { return 1; }"), "function f(){return 1}");
    assert_eq!(minify_js_simple("if (a) { b(); ;; }"), "if(a){b()}");
    assert_eq!(minify_js_simple("a();;;"), "a()");
    assert_eq!(finish_script("a;};b;;"), "a};b");
    assert_eq!(finish_script("a;;;}b"), "a}b");
    assert_eq!(finish_script(";"), "");
}

#[test]
fn literals_are_left_as_they_are() {
    assert_eq!(minify_js_simple("var s = \"a  // b\";"), "var s=\"a  // b\"");
    assert_eq!(minify_js_simple("var s = 'it\\'s  /* x */';"), "var s='it\\'s  /* x */'");
    assert_eq!(minify_js_simple("x = /a\\/b  [/]/gi ; y"), "x=/a\\/b  [/]/gi;y");
    assert_eq!(minify_js_simple("`a ${ b  +  `c` } d`  ;"), "`a ${ b  +  `c` } d`");
    assert_eq!(minify_js_simple("a = b / c / d"), "a=b / c / d");
    assert_eq!(minify_js_simple("s = \"open"), "s=\"open");
}

#[test]
fn the_scan_adds_nothing_but_spaces() {
    let code = "let a = 1; // x\nfunction  f ( ) { return  a + + a ; }\n/* y */ const s = 'q  q';";
    let scanned = strip_script(code);
    assert!(scanned.chars().count() <= code.chars().count());
    assert!(scanned.chars().all(|c| c == ' ' || code.contains(c)));
    assert_eq!(scanned, "let a=1;function f(){return a+ +a;}const s='q  q';");
}

#[test]
fn a_text_without_white_space_comments_and_literals_is_left_as_it_is() {
    for code in ["a=b;c(d)", "x", "", "if(a){b()}else{c=d+1}", "é=ü"] {
        assert_eq!(strip_script(code), code);
    }
}

#[test]
fn semicolons_before_a_closing_brace_go() {
    assert_eq!(akane::minify::finish_script("a;}"), "a}");
    assert_eq!(akane::minify::finish_script("a;;;}b"), "a}b");
    assert_eq!(akane::minify::finish_script(";a;}"), ";a}");
    assert_eq!(akane::minify::finish_script(";};}"), "}}");
    assert_eq!(akane::minify::finish_script("a; }"), "a; }");
    assert_eq!(akane::minify::finish_script("a;b}"), "a;b}");
    assert_eq!(akane::minify::finish_script("}"), "}");
    assert_eq!(akane::minify::finish_script(";"), "");
    assert_eq!(akane::minify::finish_script(""), "");
    assert_eq!(akane::minify::finish_script("f(){x;};;"), "f(){x}");
}
