//! A light minifier for the script of the player page: it drops comments and the
//! white space that nothing needs, and leaves string, template and regular
//! expression literals as they are.

use crate::text::{
    chars_of, is_white_space, strip_trailing, strip_trailing_len, substring, white_space,
};
use vstd::prelude::*;
use vstd::string::*;

verus! {

/// Whether `c` is a letter or a digit, as `char::is_alphanumeric` decides it.
pub uninterp spec fn alphanumeric(c: char) -> bool;

/// `char::is_alphanumeric` of the standard library: the result is what
/// [`alphanumeric`] names. Nothing else is claimed of it.
#[verifier::external_body]
fn is_alphanumeric(c: char) -> (r: bool)
    ensures
        r == alphanumeric(c),
{
    c.is_alphanumeric()
}

/// `String::from_iter` of the standard library, on the characters of a vector:
/// the string holds those characters, in their order.
#[verifier::external_body]
fn string_of_chars(chars: &Vec<char>) -> (s: String)
    ensures
        s@ == chars@,
{
    String::from_iter(chars.iter())
}

/// Whether the run of semicolons that `from` stands in, or begins, ends before a
/// closing brace.
pub open spec fn brace_follows(text: Seq<char>, from: int) -> bool
    decreases text.len() - from,
{
    if from >= text.len() {
        false
    } else if text[from] == ';' {
        brace_follows(text, from + 1)
    } else {
        text[from] == '}'
    }
}

/// `text` from `from` on, without the semicolons of the runs that end before a
/// closing brace.
pub open spec fn collapsed_from(text: Seq<char>, from: int) -> Seq<char>
    decreases text.len() - from,
{
    if from >= text.len() {
        Seq::empty()
    } else if text[from] == ';' && brace_follows(text, from) {
        collapsed_from(text, from + 1)
    } else {
        seq![text[from]] + collapsed_from(text, from + 1)
    }
}

/// `text` with every run of semicolons before a closing brace taken out.
pub open spec fn semicolons_collapsed(text: Seq<char>) -> Seq<char> {
    collapsed_from(text, 0)
}

/// `Regex::new` and `Regex::replace_all` of the crate `regex`, for the pattern
/// `;+}` and the replacement `}`. The pattern matches one or more semicolons and
/// the closing brace behind them, and every match, taken from the left and
/// without overlap, is replaced by the brace alone: the result is the text without
/// the runs of semicolons that end before a closing brace. The pattern is well
/// formed, so the unwrapping does not panic.
#[verifier::external_body]
fn replace_all_matches(pattern: &str, text: &str, replacement: &str) -> (r: String)
    requires
        pattern@ == ";+}"@,
        replacement@ == "}"@,
    ensures
        r@ == semicolons_collapsed(text@),
{
    regex::Regex::new(pattern).unwrap().replace_all(text, replacement).to_string()
}

/// Whether `c` may stand in an identifier.
pub open spec fn ident_char(c: char) -> bool {
    alphanumeric(c) || c == '_' || c == '$'
}

fn is_ident_char(c: char) -> (r: bool)
    ensures
        r == ident_char(c),
{
    is_alphanumeric(c) || c == '_' || c == '$'
}

/// Whether a slash after `last`, the last character written that is not white
/// space, may open a regular expression literal.
pub open spec fn regex_may_follow(last: Option<char>) -> bool {
    match last {
        None => true,
        Some(c) => c == '(' || c == ',' || c == '=' || c == ':' || c == '[' || c == '!' || c == '&'
            || c == '|' || c == '?' || c == '{' || c == '}' || c == ';' || c == '\n',
    }
}

fn can_be_regex(last: Option<char>) -> (r: bool)
    ensures
        r == regex_may_follow(last),
{
    match last {
        None => true,
        Some(c) => c == '(' || c == ',' || c == '=' || c == ':' || c == '[' || c == '!' || c == '&'
            || c == '|' || c == '?' || c == '{' || c == '}' || c == ';' || c == '\n',
    }
}

/// Whether a space must stay between `last` and `next`, two characters that
/// white space or a comment stood between.
pub open spec fn space_needed(last: char, next: char) -> bool {
    (ident_char(last) && ident_char(next)) || (ident_char(last) && next == '/') || (last == '/'
        && ident_char(next)) || ((last == '+' || last == '-') && (next == '+' || next == '-'))
}

fn needs_space_between(last: char, next: char) -> (r: bool)
    ensures
        r == space_needed(last, next),
{
    let last_is_ident = is_ident_char(last);
    let next_is_ident = is_ident_char(next);
    (last_is_ident && next_is_ident) || (last_is_ident && next == '/') || (last == '/'
        && next_is_ident) || ((last == '+' || last == '-') && (next == '+' || next == '-'))
}

fn copy_range(chars: &Vec<char>, from: usize, to: usize, out: &mut Vec<char>)
    requires
        from <= to <= chars@.len(),
    ensures
        final(out)@ == old(out)@ + chars@.subrange(from as int, to as int),
{
    let mut k: usize = from;
    assert(chars@.subrange(from as int, from as int) =~= Seq::<char>::empty());
    while k < to
        invariant
            from <= k <= to <= chars@.len(),
            out@ == old(out)@ + chars@.subrange(from as int, k as int),
        decreases to - k,
    {
        out.push(chars[k]);
        assert(chars@.subrange(from as int, k + 1) =~= chars@.subrange(from as int, k as int).push(
            chars@[k as int],
        ));
        k += 1;
    }
}

// ---------------------------------------------------------------------------
// Comments and literals
// ---------------------------------------------------------------------------

/// Where the line that holds `from` ends: at its line feed, or at the end of the
/// text.
pub open spec fn line_end(code: Seq<char>, from: int) -> int
    decreases code.len() - from,
{
    if from >= code.len() {
        code.len() as int
    } else if code[from] == '\n' {
        from
    } else {
        line_end(code, from + 1)
    }
}

/// Where a block comment ends whose text goes on at `from`: behind the first
/// `*/`, or at the end of the text.
pub open spec fn block_comment_close(code: Seq<char>, from: int) -> int
    decreases code.len() - from,
{
    if code.len() - from < 2 {
        code.len() as int
    } else if code[from] == '*' && code[from + 1] == '/' {
        from + 2
    } else {
        block_comment_close(code, from + 1)
    }
}

/// Where a string literal ends whose text goes on at `from`: behind the first
/// `quote` that no backslash stands before, or at the end of the text.
pub open spec fn string_close(code: Seq<char>, quote: char, from: int) -> int
    decreases code.len() - from,
{
    if from >= code.len() {
        code.len() as int
    } else if code[from] == '\\' && code.len() - from > 1 {
        string_close(code, quote, from + 2)
    } else if code[from] == quote {
        from + 1
    } else {
        string_close(code, quote, from + 1)
    }
}

/// Where a template literal ends whose text goes on at `from`, inside `depth`
/// open braces of substitutions: behind the first backtick outside of any
/// substitution that no backslash stands before, or at the end of the text.
pub open spec fn template_close(code: Seq<char>, depth: nat, from: int) -> int
    decreases code.len() - from,
{
    if from >= code.len() {
        code.len() as int
    } else if code[from] == '\\' && code.len() - from > 1 {
        template_close(code, depth, from + 2)
    } else if code[from] == '$' && code.len() - from > 1 && code[from + 1] == '{' {
        template_close(code, depth + 1, from + 2)
    } else if code[from] == '{' && depth > 0 {
        template_close(code, depth + 1, from + 1)
    } else if code[from] == '}' && depth > 0 {
        template_close(code, (depth - 1) as nat, from + 1)
    } else if code[from] == '`' && depth == 0 {
        from + 1
    } else {
        template_close(code, depth, from + 1)
    }
}

/// Whether a regular expression literal whose text goes on at `from` is closed
/// on its line: a slash stands outside of a character class, with no backslash
/// before it, before the line ends. `escaped` says that a backslash stands
/// before `from`, `in_class` that a character class is open.
pub open spec fn regex_closed(code: Seq<char>, escaped: bool, in_class: bool, from: int) -> bool
    decreases code.len() - from,
{
    if from >= code.len() {
        false
    } else if escaped {
        regex_closed(code, false, in_class, from + 1)
    } else if code[from] == '\\' {
        regex_closed(code, true, in_class, from + 1)
    } else if code[from] == '[' && !in_class {
        regex_closed(code, false, true, from + 1)
    } else if code[from] == ']' && in_class {
        regex_closed(code, false, false, from + 1)
    } else if code[from] == '/' && !in_class {
        true
    } else if code[from] == '\n' {
        false
    } else {
        regex_closed(code, false, in_class, from + 1)
    }
}

/// Where the body of a regular expression literal ends whose text goes on at
/// `from`: behind the slash that closes it, or at the end of the text.
pub open spec fn regex_slash(code: Seq<char>, escaped: bool, in_class: bool, from: int) -> int
    decreases code.len() - from,
{
    if from >= code.len() {
        code.len() as int
    } else if escaped {
        regex_slash(code, false, in_class, from + 1)
    } else if code[from] == '\\' {
        regex_slash(code, true, in_class, from + 1)
    } else if code[from] == '[' && !in_class {
        regex_slash(code, false, true, from + 1)
    } else if code[from] == ']' && in_class {
        regex_slash(code, false, false, from + 1)
    } else if code[from] == '/' && !in_class {
        from + 1
    } else {
        regex_slash(code, false, in_class, from + 1)
    }
}

/// Whether `c` is a letter of the Latin alphabet without diacritics.
pub open spec fn latin_letter(c: char) -> bool {
    (65 <= c as u32 <= 90) || (97 <= c as u32 <= 122)
}

fn is_latin_letter(c: char) -> (r: bool)
    ensures
        r == latin_letter(c),
{
    let code = c as u32;
    (code >= 65 && code <= 90) || (code >= 97 && code <= 122)
}

/// Where the letters end that begin at `from`: the flags of a regular expression
/// literal.
pub open spec fn flags_end(code: Seq<char>, from: int) -> int
    decreases code.len() - from,
{
    if from < code.len() && latin_letter(code[from]) {
        flags_end(code, from + 1)
    } else {
        from
    }
}

/// Where the literal that begins at `at` ends, if one begins there: a string, a
/// template, or, after `last` and where it is closed on its line, a regular
/// expression with its flags.
pub open spec fn literal_end(code: Seq<char>, at: int, last: Option<char>) -> Option<int> {
    if code[at] == '"' || code[at] == '\'' {
        Some(string_close(code, code[at], at + 1))
    } else if code[at] == '`' {
        Some(template_close(code, 0, at + 1))
    } else if code[at] == '/' && regex_may_follow(last) && regex_closed(
        code,
        false,
        false,
        at + 1,
    ) {
        Some(flags_end(code, regex_slash(code, false, false, at + 1)))
    } else {
        None
    }
}

proof fn lemma_line_end(code: Seq<char>, from: int)
    requires
        0 <= from <= code.len(),
    ensures
        from <= line_end(code, from) <= code.len(),
    decreases code.len() - from,
{
    if from < code.len() && code[from] != '\n' {
        lemma_line_end(code, from + 1);
    }
}

proof fn lemma_block_comment_close(code: Seq<char>, from: int)
    requires
        0 <= from <= code.len(),
    ensures
        from <= block_comment_close(code, from) <= code.len(),
    decreases code.len() - from,
{
    if code.len() - from >= 2 && !(code[from] == '*' && code[from + 1] == '/') {
        lemma_block_comment_close(code, from + 1);
    }
}

proof fn lemma_string_close(code: Seq<char>, quote: char, from: int)
    requires
        0 <= from <= code.len(),
    ensures
        from <= string_close(code, quote, from) <= code.len(),
    decreases code.len() - from,
{
    if from < code.len() {
        if code[from] == '\\' && code.len() - from > 1 {
            lemma_string_close(code, quote, from + 2);
        } else if code[from] != quote {
            lemma_string_close(code, quote, from + 1);
        }
    }
}

proof fn lemma_template_close(code: Seq<char>, depth: nat, from: int)
    requires
        0 <= from <= code.len(),
    ensures
        from <= template_close(code, depth, from) <= code.len(),
    decreases code.len() - from,
{
    if from < code.len() {
        if code[from] == '\\' && code.len() - from > 1 {
            lemma_template_close(code, depth, from + 2);
        } else if code[from] == '$' && code.len() - from > 1 && code[from + 1] == '{' {
            lemma_template_close(code, depth + 1, from + 2);
        } else if code[from] == '{' && depth > 0 {
            lemma_template_close(code, depth + 1, from + 1);
        } else if code[from] == '}' && depth > 0 {
            lemma_template_close(code, (depth - 1) as nat, from + 1);
        } else if code[from] == '`' && depth == 0 {
        } else {
            lemma_template_close(code, depth, from + 1);
        }
    }
}

proof fn lemma_regex_slash(code: Seq<char>, escaped: bool, in_class: bool, from: int)
    requires
        0 <= from <= code.len(),
    ensures
        from <= regex_slash(code, escaped, in_class, from) <= code.len(),
    decreases code.len() - from,
{
    if from < code.len() {
        if escaped {
            lemma_regex_slash(code, false, in_class, from + 1);
        } else if code[from] == '\\' {
            lemma_regex_slash(code, true, in_class, from + 1);
        } else if code[from] == '[' && !in_class {
            lemma_regex_slash(code, false, true, from + 1);
        } else if code[from] == ']' && in_class {
            lemma_regex_slash(code, false, false, from + 1);
        } else if code[from] == '/' && !in_class {
        } else {
            lemma_regex_slash(code, false, in_class, from + 1);
        }
    }
}

proof fn lemma_flags_end(code: Seq<char>, from: int)
    requires
        0 <= from <= code.len(),
    ensures
        from <= flags_end(code, from) <= code.len(),
    decreases code.len() - from,
{
    if from < code.len() && latin_letter(code[from]) {
        lemma_flags_end(code, from + 1);
    }
}

/// A literal that begins inside the text ends behind its first character, and
/// inside the text.
pub proof fn lemma_literal_end(code: Seq<char>, at: int, last: Option<char>)
    requires
        0 <= at < code.len(),
    ensures
        literal_end(code, at, last) matches Some(end) ==> at < end <= code.len(),
{
    lemma_string_close(code, code[at], at + 1);
    lemma_template_close(code, 0, at + 1);
    lemma_regex_slash(code, false, false, at + 1);
    lemma_flags_end(code, regex_slash(code, false, false, at + 1));
}

/// Finds where the line comment that begins at `at` ends.
fn line_comment_end(chars: &Vec<char>, at: usize) -> (end: usize)
    requires
        at + 1 < chars@.len(),
    ensures
        at + 2 <= end <= chars@.len(),
        end == line_end(chars@, at + 2),
{
    let len = chars.len();
    let mut i: usize = at + 2;
    while i < len && chars[i] != '\n'
        invariant
            at + 2 <= i <= len,
            len == chars@.len(),
            line_end(chars@, i as int) == line_end(chars@, at + 2),
        decreases len - i,
    {
        i += 1;
    }
    i
}

/// Finds where the block comment that begins at `at` ends.
fn block_comment_end(chars: &Vec<char>, at: usize) -> (end: usize)
    requires
        at + 1 < chars@.len(),
    ensures
        at + 2 <= end <= chars@.len(),
        end == block_comment_close(chars@, at + 2),
{
    let len = chars.len();
    let mut i: usize = at + 2;
    while len - i > 1 && !(chars[i] == '*' && chars[i + 1] == '/')
        invariant
            at + 2 <= i <= len,
            len == chars@.len(),
            block_comment_close(chars@, i as int) == block_comment_close(chars@, at + 2),
        decreases len - i,
    {
        i += 1;
    }
    if len - i >= 2 {
        i + 2
    } else {
        len
    }
}

/// Finds where the string literal that begins at `at` ends.
fn string_end(chars: &Vec<char>, at: usize) -> (end: usize)
    requires
        at < chars@.len(),
    ensures
        at < end <= chars@.len(),
        end == string_close(chars@, chars@[at as int], at + 1),
{
    let len = chars.len();
    let quote = chars[at];
    let mut i: usize = at + 1;
    let mut closed = false;
    while i < len && !closed
        invariant
            at < i <= len,
            len == chars@.len(),
            !closed ==> string_close(chars@, quote, i as int) == string_close(
                chars@,
                quote,
                at + 1,
            ),
            closed ==> i == string_close(chars@, quote, at + 1),
        decreases len - i,
    {
        let sc = chars[i];
        if sc == '\\' && len - i > 1 {
            i += 2;
        } else if sc == quote {
            closed = true;
            i += 1;
        } else {
            i += 1;
        }
    }
    i
}

/// Finds where the template literal that begins at `at` ends.
fn template_end(chars: &Vec<char>, at: usize) -> (end: usize)
    requires
        at < chars@.len(),
    ensures
        at < end <= chars@.len(),
        end == template_close(chars@, 0, at + 1),
{
    let len = chars.len();
    let mut i: usize = at + 1;
    let mut depth: usize = 0;
    let mut closed = false;
    while i < len && !closed
        invariant
            at < i <= len,
            len == chars@.len(),
            depth <= i,
            !closed ==> template_close(chars@, depth as nat, i as int) == template_close(
                chars@,
                0,
                at + 1,
            ),
            closed ==> i == template_close(chars@, 0, at + 1),
        decreases len - i,
    {
        let tc = chars[i];
        if tc == '\\' && len - i > 1 {
            i += 2;
        } else if tc == '$' && len - i > 1 && chars[i + 1] == '{' {
            depth += 1;
            i += 2;
        } else if tc == '{' && depth > 0 {
            depth += 1;
            i += 1;
        } else if tc == '}' && depth > 0 {
            depth -= 1;
            i += 1;
        } else if tc == '`' && depth == 0 {
            closed = true;
            i += 1;
        } else {
            i += 1;
        }
    }
    i
}

/// Decides whether the slash at `at` opens a regular expression literal that is
/// closed on its line.
fn regex_closes(chars: &Vec<char>, at: usize) -> (r: bool)
    requires
        at < chars@.len(),
    ensures
        r == regex_closed(chars@, false, false, at + 1),
{
    let len = chars.len();
    let mut j: usize = at + 1;
    let mut escaped = false;
    let mut in_class = false;
    let mut found = false;
    let mut stop = false;
    while j < len && !found && !stop
        invariant
            at < j <= len,
            len == chars@.len(),
            !(found && stop),
            !found && !stop ==> regex_closed(chars@, escaped, in_class, j as int) == regex_closed(
                chars@,
                false,
                false,
                at + 1,
            ),
            found ==> regex_closed(chars@, false, false, at + 1),
            stop ==> !regex_closed(chars@, false, false, at + 1),
        decreases len - j,
    {
        let rc = chars[j];
        if escaped {
            escaped = false;
            j += 1;
        } else if rc == '\\' {
            escaped = true;
            j += 1;
        } else if rc == '[' && !in_class {
            in_class = true;
            j += 1;
        } else if rc == ']' && in_class {
            in_class = false;
            j += 1;
        } else if rc == '/' && !in_class {
            found = true;
            j += 1;
        } else if rc == '\n' {
            stop = true;
            j += 1;
        } else {
            j += 1;
        }
    }
    found
}

/// Finds where the regular expression literal that begins at `at` ends.
fn regex_end(chars: &Vec<char>, at: usize) -> (end: usize)
    requires
        at < chars@.len(),
    ensures
        at < end <= chars@.len(),
        end == flags_end(chars@, regex_slash(chars@, false, false, at + 1)),
{
    let len = chars.len();
    let mut i: usize = at + 1;
    let mut escaped = false;
    let mut in_class = false;
    let mut closed = false;
    while i < len && !closed
        invariant
            at < i <= len,
            len == chars@.len(),
            !closed ==> regex_slash(chars@, escaped, in_class, i as int) == regex_slash(
                chars@,
                false,
                false,
                at + 1,
            ),
            closed ==> i == regex_slash(chars@, false, false, at + 1),
        decreases len - i,
    {
        let rc = chars[i];
        if escaped {
            escaped = false;
        } else if rc == '\\' {
            escaped = true;
        } else if rc == '[' && !in_class {
            in_class = true;
        } else if rc == ']' && in_class {
            in_class = false;
        } else if rc == '/' && !in_class {
            closed = true;
        }
        i += 1;
    }
    let ghost slash = i as int;
    assert(slash == regex_slash(chars@, false, false, at + 1));
    while i < len && is_latin_letter(chars[i])
        invariant
            at < i <= len,
            len == chars@.len(),
            flags_end(chars@, i as int) == flags_end(chars@, slash),
        decreases len - i,
    {
        i += 1;
    }
    i
}

// ---------------------------------------------------------------------------
// The scan
// ---------------------------------------------------------------------------

/// The space that stays before `next` where white space or a comment stood
/// (`pending`) behind `last`: one where the two would read otherwise without it.
pub open spec fn gap(last: Option<char>, pending: bool, next: char) -> Seq<char> {
    if pending && last is Some && space_needed(last->0, next) {
        seq![' ']
    } else {
        Seq::empty()
    }
}

/// What the scan writes of `code` from `at` on, after `last`, the last character
/// written that is not white space, and with white space or a comment passed
/// since then (`pending`).
///
/// A line comment goes without a trace, and so does white space before anything
/// is written. A block comment and white space go too, and leave one space
/// where [`space_needed`] asks for it. A literal is copied as it stands. Any
/// other character is written.
pub open spec fn scan(code: Seq<char>, at: int, last: Option<char>, pending: bool) -> Seq<char>
    decreases code.len() - at,
    when 0 <= at
    via scan_decreases
{
    if at >= code.len() {
        Seq::empty()
    } else if code[at] == '/' && code.len() - at > 1 && code[at + 1] == '/' {
        scan(code, line_end(code, at + 2), last, pending)
    } else if code[at] == '/' && code.len() - at > 1 && code[at + 1] == '*' {
        scan(code, block_comment_close(code, at + 2), last, pending || last is Some)
    } else {
        match literal_end(code, at, last) {
            Some(end) => code.subrange(at, end) + scan(code, end, Some(code[at]), false),
            None => if white_space(code[at]) {
                scan(code, at + 1, last, pending || last is Some)
            } else {
                gap(last, pending, code[at]) + seq![code[at]] + scan(
                    code,
                    at + 1,
                    Some(code[at]),
                    false,
                )
            },
        }
    }
}

#[via_fn]
proof fn scan_decreases(code: Seq<char>, at: int, last: Option<char>, pending: bool) {
    if at < code.len() {
        if code.len() - at > 1 {
            lemma_line_end(code, at + 2);
            lemma_block_comment_close(code, at + 2);
        }
        lemma_literal_end(code, at, last);
    }
}

/// The script without its comments and without the white space that nothing
/// needs.
pub open spec fn stripped(code: Seq<char>) -> Seq<char> {
    scan(code, 0, None, false)
}

/// What holds of the text that the scan leaves of `code`: it is not longer, and
/// it holds no character that `code` does not hold, but for spaces.
pub open spec fn scanned_from(code: Seq<char>, scanned: Seq<char>) -> bool {
    &&& scanned.len() <= code.len()
    &&& forall|k: int|
        0 <= k < scanned.len() ==> #[trigger] scanned[k] == ' ' || code.contains(scanned[k])
}

/// Whether a text holds nothing for the scan to look at: no white space, no
/// slash, no quote and no backtick.
pub open spec fn plain(code: Seq<char>) -> bool {
    forall|k: int|
        0 <= k < code.len() ==> !white_space(#[trigger] code[k]) && code[k] != '/' && code[k]
            != '"' && code[k] != '\'' && code[k] != '`'
}

/// Drops the comments and the white space that nothing needs; literals are
/// copied as they stand.
///
/// What is left is not longer than the script and holds no character that the
/// script does not hold, but for spaces. A text without white space, comments
/// and literals is left as it is.
pub fn strip_script(code: &str) -> (r: String)
    ensures
        r@ == stripped(code@),
        scanned_from(code@, r@),
        plain(code@) ==> r@ == code@,
{
    let chars = chars_of(code);
    let len = chars.len();
    let mut out: Vec<char> = Vec::new();
    let mut i: usize = 0;
    let mut last_non_ws: Option<char> = None;
    let mut needs_space = false;
    assert(out@ + scan(chars@, 0, None, false) =~= stripped(chars@));
    while i < len
        invariant
            i <= len,
            len == chars@.len(),
            chars@ == code@,
            out@.len() + (if needs_space {
                1int
            } else {
                0int
            }) <= i,
            needs_space ==> last_non_ws is Some,
            plain(chars@) ==> out@ == chars@.take(i as int) && !needs_space,
            forall|k: int|
                0 <= k < out@.len() ==> #[trigger] out@[k] == ' ' || chars@.contains(out@[k]),
            out@ + scan(chars@, i as int, last_non_ws, needs_space) == stripped(chars@),
        decreases len - i,
    {
        let c = chars[i];
        let ghost before = out@;
        let ghost rest = scan(chars@, i as int, last_non_ws, needs_space);
        let mut literal_end_at: Option<usize> = None;
        proof {
            assert(chars@[i as int] == c);
            assert(chars@.take(i as int + 1) =~= chars@.take(i as int).push(c));
        }
        if c == '/' && len - i > 1 && chars[i + 1] == '/' {
            i = line_comment_end(&chars, i);
        } else if c == '/' && len - i > 1 && chars[i + 1] == '*' {
            i = block_comment_end(&chars, i);
            if last_non_ws.is_some() {
                needs_space = true;
            }
        } else {
            if c == '"' || c == '\'' {
                literal_end_at = Some(string_end(&chars, i));
            } else if c == '`' {
                literal_end_at = Some(template_end(&chars, i));
            } else if c == '/' && can_be_regex(last_non_ws) && regex_closes(&chars, i) {
                literal_end_at = Some(regex_end(&chars, i));
            }
            assert(match literal_end_at {
                Some(end) => literal_end(chars@, i as int, last_non_ws) == Some(end as int),
                None => literal_end(chars@, i as int, last_non_ws) is None,
            });
            match literal_end_at {
                Some(end) => {
                    copy_range(&chars, i, end, &mut out);
                    proof {
                        assert forall|k: int| 0 <= k < out@.len() implies #[trigger] out@[k] == ' '
                            || chars@.contains(out@[k]) by {
                            if k >= before.len() {
                                assert(out@[k] == chars@[i + (k - before.len())]);
                            } else {
                                assert(out@[k] == before[k]);
                            }
                        }
                        let after = scan(chars@, end as int, Some(c), false);
                        assert(rest == chars@.subrange(i as int, end as int) + after);
                        assert(out@ + after =~= before + rest);
                    }
                    last_non_ws = Some(c);
                    needs_space = false;
                    i = end;
                },
                None => {
                    if is_white_space(c) {
                        if last_non_ws.is_some() {
                            needs_space = true;
                        }
                    } else {
                        let ghost space = gap(last_non_ws, needs_space, c);
                        if needs_space {
                            match last_non_ws {
                                Some(last) => {
                                    if needs_space_between(last, c) {
                                        out.push(' ');
                                    }
                                },
                                None => {},
                            }
                            needs_space = false;
                        }
                        out.push(c);
                        proof {
                            assert(chars@[i as int] == c);
                            assert(out@ =~= before + space + seq![c]);
                            assert forall|k: int| 0 <= k < out@.len() implies #[trigger] out@[k]
                                == ' ' || chars@.contains(out@[k]) by {
                                if k < before.len() {
                                    assert(out@[k] == before[k]);
                                }
                            }
                            let after = scan(chars@, i + 1, Some(c), false);
                            assert(rest == space + seq![c] + after);
                            assert(out@ + after =~= before + rest);
                        }
                        last_non_ws = Some(c);
                    }
                    i += 1;
                },
            }
        }
    }
    proof {
        assert(chars@.take(i as int) =~= chars@);
        assert(scan(chars@, i as int, last_non_ws, needs_space) =~= Seq::<char>::empty());
        assert(out@ =~= out@ + Seq::<char>::empty());
    }
    string_of_chars(&out)
}

/// The script in its smallest form, given what the scan left of it: without the
/// semicolons before closing braces and at the end.
pub open spec fn minified_from(scanned: Seq<char>) -> Seq<char> {
    strip_trailing(semicolons_collapsed(scanned), ';')
}

/// Makes a script smaller: comments go, white space goes where nothing needs it,
/// and so do the semicolons before closing braces and at the end.
pub fn minify_js_simple(code: &str) -> (r: String)
    ensures
        r@ == minified_from(stripped(code@)),
{
    let scanned = strip_script(code);
    finish_script(scanned.as_str())
}

/// Takes the semicolons before closing braces and at the end out of a script.
pub fn finish_script(scanned: &str) -> (r: String)
    ensures
        r@ == minified_from(scanned@),
{
    let collapsed = replace_all_matches(";+}", scanned, "}");
    let chars = chars_of(collapsed.as_str());
    let n = strip_trailing_len(&chars, ';');
    assert(collapsed@.subrange(0, n as int) =~= collapsed@.take(n as int));
    substring(collapsed.as_str(), 0, n)
}

} // verus!
