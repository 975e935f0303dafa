use akane::tags::{parse_csv_tags, parse_tags, tags_from};
use akane::text::{
    chars_of, concat2, concat3, decimal_len, decimal_string, matches_at, parse_u32, parse_u64,
    push_decimal, push_padded_decimal, split_ranges, str_contains, str_ends_with, str_eq,
    str_starts_with, strip_trailing_len, sub_chars, substring, trim_range, trimmed,
};

fn cs(s: &str) -> Vec<char> {
    s.chars().collect()
}

#[test]
fn decimal_numerals() {
    assert_eq!(decimal_string(0), "0");
    assert_eq!(decimal_string(7), "7");
    assert_eq!(decimal_string(10), "10");
    assert_eq!(decimal_string(1234567890), "1234567890");
    assert_eq!(decimal_string(u64::MAX), "18446744073709551615");
    assert_eq!(decimal_len(0), 1);
    assert_eq!(decimal_len(9), 1);
    assert_eq!(decimal_len(10), 2);
    assert_eq!(decimal_len(u64::MAX), 20);
    let mut s = String::from("n=");
    push_decimal(&mut s, 405);
    assert_eq!(s, "n=405");
}

#[test]
fn padded_numerals() {
    let mut s = String::new();
    push_padded_decimal(&mut s, 5, 3);
    s.push('|');
    push_padded_decimal(&mut s, 1234, 3);
    s.push('|');
    push_padded_decimal(&mut s, 0, 0);
    s.push('|');
    push_padded_decimal(&mut s, 42, 6);
    assert_eq!(s, "005|1234|0|000042");
}

#[test]
fn numerals_read_back() {
    for n in [0u64, 1, 9, 10, 99, 100, 3600, 1_700_000_000, u64::MAX] {
        assert_eq!(parse_u64(&cs(&decimal_string(n))), Some(n));
    }
}

#[test]
fn reading_unsigned_numerals() {
    assert_eq!(parse_u64(&cs("0")), Some(0));
    assert_eq!(parse_u64(&cs("007")), Some(7));
    assert_eq!(parse_u64(&cs("18446744073709551615")), Some(u64::MAX));
    assert_eq!(parse_u64(&cs("18446744073709551616")), None);
    assert_eq!(parse_u64(&cs("99999999999999999999999999")), None);
    assert_eq!(parse_u64(&cs("")), None);
    assert_eq!(parse_u64(&cs("+1")), None);
    assert_eq!(parse_u64(&cs("-1")), None);
    assert_eq!(parse_u64(&cs("1 ")), None);
    assert_eq!(parse_u64(&cs("1a")), None);
    assert_eq!(parse_u64(&cs("١٢")), None);
    assert_eq!(parse_u32(&cs("4294967295")), Some(u32::MAX));
    assert_eq!(parse_u32(&cs("4294967296")), None);
    assert_eq!(parse_u32(&cs("+12")), Some(12));
    assert_eq!(parse_u32(&cs("+")), None);
    assert_eq!(parse_u32(&cs("++1")), None);
    assert_eq!(parse_u32(&cs("12")), Some(12));
    assert_eq!(parse_u32(&cs("")), None);
}

#[test]
fn strings_compare_by_their_characters() {
    assert!(str_eq("", ""));
    assert!(str_eq("héllo", "héllo"));
    assert!(!str_eq("hello", "hellp"));
    assert!(!str_eq("hello", "hell"));
    assert_eq!(chars_of("aé"), vec!['a', 'é']);
}

#[test]
fn prefixes_suffixes_and_substrings() {
    assert!(str_starts_with("token=x", "token="));
    assert!(str_starts_with("a", ""));
    assert!(!str_starts_with("tok", "token="));
    assert!(str_ends_with("a.m3u8", ".m3u8"));
    assert!(str_ends_with("a", ""));
    assert!(!str_ends_with("m3u8", ".m3u8"));
    assert!(str_contains("h264_nvenc", "nvenc"));
    assert!(str_contains("nvenc", "nvenc"));
    assert!(str_contains("abc", ""));
    assert!(str_contains("", ""));
    assert!(!str_contains("nven", "nvenc"));
    assert!(!str_contains("", "a"));
    assert!(str_contains("aab", "ab"));
    assert!(matches_at(&cs("hello"), 1, &cs("ell")));
    assert!(!matches_at(&cs("hello"), 3, &cs("lox")));
    assert!(!matches_at(&cs("hello"), 9, &cs("")));
    assert!(matches_at(&cs("hello"), 5, &cs("")));
    assert_eq!(sub_chars(&cs("hello"), 1, 3), cs("el"));
    assert_eq!(substring("héllo", 1, 4), "éll");
    assert_eq!(concat2("a", "b"), "ab");
    assert_eq!(concat3("a", "é", "c"), "aéc");
}

#[test]
fn splitting_gives_one_piece_more_than_separators() {
    assert_eq!(split_ranges(&cs(""), ','), vec![(0, 0)]);
    assert_eq!(split_ranges(&cs("abc"), ','), vec![(0, 3)]);
    assert_eq!(split_ranges(&cs("a,bc"), ','), vec![(0, 1), (2, 4)]);
    assert_eq!(split_ranges(&cs(",a,"), ','), vec![(0, 0), (1, 2), (3, 3)]);
    assert_eq!(split_ranges(&cs(",,"), ','), vec![(0, 0), (1, 1), (2, 2)]);
}

#[test]
fn trimming_removes_white_space_at_both_ends() {
    assert_eq!(trimmed("  a b \t\n"), "a b");
    assert_eq!(trimmed("a"), "a");
    assert_eq!(trimmed("   "), "");
    assert_eq!(trimmed(""), "");
    assert_eq!(trimmed("\u{a0}x\u{3000}"), "x");
    assert_eq!(trim_range(&cs(" ab "), 0, 4), (1, 3));
    assert_eq!(trim_range(&cs("xx ab yy"), 2, 6), (3, 5));
    assert_eq!(strip_trailing_len(&cs("10kk"), 'k'), 2);
    assert_eq!(strip_trailing_len(&cs("kkk"), 'k'), 0);
    assert_eq!(strip_trailing_len(&cs("k1"), 'k'), 2);
}

#[test]
fn comma_separated_tags() {
    assert_eq!(parse_csv_tags("a,b"), vec!["a", "b"]);
    assert_eq!(parse_csv_tags(" a , b ,, c "), vec!["a", "b", "c"]);
    assert_eq!(parse_csv_tags(""), Vec::<String>::new());
    assert_eq!(parse_csv_tags(" , ,"), Vec::<String>::new());
    assert_eq!(parse_csv_tags("one tag"), vec!["one tag"]);
}

#[test]
fn tags_as_json_or_as_a_list() {
    assert_eq!(parse_tags("[\"a\",\"b c\"]"), vec!["a", "b c"]);
    assert_eq!(parse_tags(" [ \"a\" ] "), vec!["a"]);
    assert_eq!(parse_tags("[]"), Vec::<String>::new());
    assert_eq!(parse_tags("[\"\\u00e9\"]"), vec!["é"]);
    assert_eq!(parse_tags("a,b"), vec!["a", "b"]);
    assert_eq!(parse_tags("[1,2]"), vec!["[1", "2]"]);
    assert_eq!(parse_tags("\"a\""), vec!["\"a\""]);
    assert_eq!(parse_tags("[\"a\""), vec!["[\"a\""]);
    assert_eq!(tags_from(Some(vec!["x".to_string()]), "ignored, text"), vec!["x"]);
    assert_eq!(tags_from(None, "p, q"), vec!["p", "q"]);
}

#[test]
fn white_space_is_the_listed_characters() {
    let listed = |c: char| {
        let u = c as u32;
        (0x09..=0x0D).contains(&u)
            || u == 0x20
            || u == 0x85
            || u == 0xA0
            || u == 0x1680
            || (0x2000..=0x200A).contains(&u)
            || u == 0x2028
            || u == 0x2029
            || u == 0x202F
            || u == 0x205F
            || u == 0x3000
    };
    let mut text = String::new();
    for u in 0..=0x10FFFFu32 {
        if let Some(c) = char::from_u32(u) {
            text.clear();
            text.push(c);
            assert_eq!(akane::text::trimmed(&text).is_empty(), listed(c), "U+{:04X}", u);
        }
    }
    assert_eq!(akane::text::trimmed("\u{2003}a b\u{3000}\t"), "a b");
    assert_eq!(akane::text::trimmed("\u{200B}a"), "\u{200B}a");
}
