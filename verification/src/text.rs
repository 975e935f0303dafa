//! Character-level text utilities: decimal numerals, searching, splitting and trimming.
//!
//! Every function here speaks of a string through its view, the sequence of its
//! characters. Scanning works on a `Vec<char>` produced by [`chars_of`], so that
//! indices are character positions and can be handed to `substring_char`.

use vstd::prelude::*;
use vstd::string::*;

verus! {

// ---------------------------------------------------------------------------
// Characters of a string
// ---------------------------------------------------------------------------

/// The characters of `s`, in order, as a vector that can be indexed in constant time.
pub fn chars_of(s: &str) -> (v: Vec<char>)
    ensures
        v@ == s@,
{
    let mut v: Vec<char> = Vec::new();
    for c in it: s.chars()
        invariant
            it.seq() == s@,
            v@ == it.seq().take(it.index() as int),
    {
        v.push(c);
    }
    v
}

/// Whether two strings hold the same characters.
pub fn str_eq(a: &str, b: &str) -> (r: bool)
    ensures
        r == (a@ == b@),
{
    let x = chars_of(a);
    let y = chars_of(b);
    if x.len() != y.len() {
        return false;
    }
    let mut i: usize = 0;
    while i < x.len()
        invariant
            i <= x.len(),
            x.len() == y.len(),
            x@ == a@,
            y@ == b@,
            forall|j: int| 0 <= j < i ==> x@[j] == y@[j],
        decreases x.len() - i,
    {
        if x[i] != y[i] {
            return false;
        }
        i += 1;
    }
    assert(x@ =~= y@);
    true
}

// ---------------------------------------------------------------------------
// Decimal numerals
// ---------------------------------------------------------------------------

/// The character that writes the digit `d`, for `0 <= d <= 9`.
pub open spec fn digit_char(d: int) -> char {
    ((48 + d) as u8) as char
}

/// Whether `c` is one of `'0'` to `'9'`.
pub open spec fn is_digit(c: char) -> bool {
    48 <= c as u32 <= 57
}

/// The value of the digit character `c`.
pub open spec fn digit_value(c: char) -> int {
    c as u32 as int - 48
}

/// The shortest decimal numeral of `n`: no sign, no leading zero but for `0` itself.
pub open spec fn decimal(n: nat) -> Seq<char>
    decreases n,
{
    if n < 10 {
        seq![digit_char(n as int)]
    } else {
        decimal(n / 10).push(digit_char((n % 10) as int))
    }
}

/// Whether every character of `s` is a decimal digit.
pub open spec fn all_digits(s: Seq<char>) -> bool {
    forall|i: int| 0 <= i < s.len() ==> is_digit(#[trigger] s[i])
}

/// The number that a sequence of digits writes in base ten; `0` for the empty sequence.
pub open spec fn decimal_value(s: Seq<char>) -> nat
    decreases s.len(),
{
    if s.len() == 0 {
        0
    } else {
        (decimal_value(s.drop_last()) * 10 + digit_value(s.last())) as nat
    }
}

/// Reading of an unsigned decimal numeral: one or more digits and nothing else.
pub open spec fn parse_decimal(s: Seq<char>) -> Option<nat> {
    if s.len() > 0 && all_digits(s) {
        Some(decimal_value(s))
    } else {
        None
    }
}

/// `n` written in decimal and left-padded with zeros to at least `width` characters.
pub open spec fn padded_decimal(n: nat, width: nat) -> Seq<char> {
    if decimal(n).len() >= width {
        decimal(n)
    } else {
        Seq::new((width - decimal(n).len()) as nat, |i: int| '0') + decimal(n)
    }
}

/// The character of a digit is a digit character and has the digit's value.
pub proof fn lemma_digit_char(d: int)
    requires
        0 <= d <= 9,
    ensures
        is_digit(digit_char(d)),
        digit_value(digit_char(d)) == d,
{
}

/// A numeral written by `decimal` is a non-empty run of digits that reads back as the number.
pub proof fn lemma_decimal_roundtrip(n: nat)
    ensures
        decimal(n).len() > 0,
        all_digits(decimal(n)),
        decimal_value(decimal(n)) == n,
        parse_decimal(decimal(n)) == Some(n),
    decreases n,
{
    if n < 10 {
        lemma_digit_char(n as int);
        let s = decimal(n);
        assert(s.drop_last() =~= Seq::<char>::empty());
        assert(decimal_value(s.drop_last()) == 0);
    } else {
        lemma_decimal_roundtrip(n / 10);
        lemma_digit_char((n % 10) as int);
        let s = decimal(n);
        assert(s.drop_last() =~= decimal(n / 10));
        assert(s.last() == digit_char((n % 10) as int));
    }
}

/// Different numbers have different numerals.
pub proof fn lemma_decimal_injective(a: nat, b: nat)
    requires
        decimal(a) == decimal(b),
    ensures
        a == b,
{
    lemma_decimal_roundtrip(a);
    lemma_decimal_roundtrip(b);
}

/// The value of a run of digits is at least the value of each of its prefixes.
pub proof fn lemma_decimal_value_prefix(s: Seq<char>, k: int)
    requires
        all_digits(s),
        0 <= k <= s.len(),
    ensures
        decimal_value(s.take(k)) <= decimal_value(s),
    decreases s.len() - k,
{
    if k == s.len() {
        assert(s.take(k) =~= s);
    } else {
        lemma_decimal_value_prefix(s, k + 1);
        let t = s.take(k + 1);
        assert(t.drop_last() =~= s.take(k));
        assert(t.last() == s[k]);
        assert(is_digit(s[k]));
    }
}

fn digit_str(d: u8) -> (r: &'static str)
    requires
        d <= 9,
    ensures
        r@ == seq![digit_char(d as int)],
{
    proof {
        reveal_strlit("0");
        reveal_strlit("1");
        reveal_strlit("2");
        reveal_strlit("3");
        reveal_strlit("4");
        reveal_strlit("5");
        reveal_strlit("6");
        reveal_strlit("7");
        reveal_strlit("8");
        reveal_strlit("9");
    }
    let r = match d {
        0 => "0",
        1 => "1",
        2 => "2",
        3 => "3",
        4 => "4",
        5 => "5",
        6 => "6",
        7 => "7",
        8 => "8",
        _ => "9",
    };
    assert(r@ =~= seq![digit_char(d as int)]);
    r
}

/// Appends the decimal numeral of `n` to `out`.
pub fn push_decimal(out: &mut String, n: u64)
    ensures
        final(out)@ == old(out)@ + decimal(n as nat),
    decreases n,
{
    if n >= 10 {
        push_decimal(out, n / 10);
        out.append(digit_str((n % 10) as u8));
        assert(out@ =~= old(out)@ + decimal(n as nat));
    } else {
        out.append(digit_str(n as u8));
    }
}

/// The decimal numeral of `n`.
pub fn decimal_string(n: u64) -> (s: String)
    ensures
        s@ == decimal(n as nat),
{
    let mut s = String::new();
    push_decimal(&mut s, n);
    assert(s@ =~= decimal(n as nat));
    s
}

/// The number of characters of the decimal numeral of `n`.
pub fn decimal_len(n: u64) -> (len: usize)
    ensures
        len == decimal(n as nat).len(),
        1 <= len <= 20,
    decreases n,
{
    if n >= 10 {
        let rest = decimal_len(n / 10);
        proof {
            lemma_decimal_len_bound(n as nat);
        }
        rest + 1
    } else {
        1
    }
}

/// A numeral of a number below `10^20` has at most twenty digits.
pub proof fn lemma_decimal_len_bound(n: nat)
    requires
        n <= u64::MAX,
    ensures
        1 <= decimal(n).len() <= 20,
{
    reveal_with_fuel(decimal, 21);
}

/// Appends `n` in decimal, left-padded with zeros to at least `width` characters.
pub fn push_padded_decimal(out: &mut String, n: u64, width: usize)
    ensures
        final(out)@ == old(out)@ + padded_decimal(n as nat, width as nat),
{
    let len = decimal_len(n);
    let ghost before = out@;
    let mut k: usize = len;
    while k < width
        invariant
            len <= k,
            len == decimal(n as nat).len(),
            k <= width || k == len,
            out@ == before + Seq::new((k - len) as nat, |i: int| '0'),
        decreases width - k,
    {
        proof {
            reveal_strlit("0");
        }
        let ghost prev = out@;
        out.append("0");
        k += 1;
        assert(out@ =~= before + Seq::new((k - len) as nat, |i: int| '0'));
    }
    let ghost mid = out@;
    push_decimal(out, n);
    proof {
        if len >= width {
            assert(mid =~= before);
        }
        assert(out@ =~= before + padded_decimal(n as nat, width as nat));
    }
}

/// Reads an unsigned decimal numeral that fits in `u64`.
///
/// `None` for the empty string, for any character that is not a digit, and for a
/// value above `u64::MAX`. Leading zeros are read; a sign is not.
pub fn parse_u64(s: &Vec<char>) -> (r: Option<u64>)
    ensures
        r == match parse_decimal(s@) {
            Some(n) => if n <= u64::MAX {
                Some(n as u64)
            } else {
                None
            },
            None => None,
        },
{
    if s.len() == 0 {
        return None;
    }
    let mut acc: u64 = 0;
    let mut i: usize = 0;
    while i < s.len()
        invariant
            i <= s.len(),
            all_digits(s@.take(i as int)),
            acc == decimal_value(s@.take(i as int)),
        decreases s.len() - i,
    {
        let c = s[i];
        if !(c as u32 >= 48 && c as u32 <= 57) {
            return None;
        }
        let d: u64 = (c as u32 - 48) as u64;
        proof {
            let t = s@.take(i as int + 1);
            assert(t.drop_last() =~= s@.take(i as int));
            assert(t.last() == c);
            assert forall|j: int| 0 <= j < t.len() implies is_digit(#[trigger] t[j]) by {
                if j < i {
                    assert(t[j] == s@.take(i as int)[j]);
                }
            }
            assert(decimal_value(t) == acc * 10 + d);
        }
        if acc > (u64::MAX - d) / 10 {
            proof {
                if all_digits(s@) {
                    lemma_decimal_value_prefix(s@, i as int + 1);
                }
            }
            return None;
        }
        acc = acc * 10 + d;
        i += 1;
    }
    assert(s@.take(i as int) =~= s@);
    Some(acc)
}

/// A copy of the characters `from..to` of `s`.
pub fn sub_chars(s: &Vec<char>, from: usize, to: usize) -> (r: Vec<char>)
    requires
        from <= to <= s@.len(),
    ensures
        r@ == s@.subrange(from as int, to as int),
{
    let mut r: Vec<char> = Vec::new();
    let mut i: usize = from;
    while i < to
        invariant
            from <= i <= to <= s@.len(),
            r@ == s@.subrange(from as int, i as int),
        decreases to - i,
    {
        r.push(s[i]);
        i += 1;
    }
    r
}

/// Reading of a signed decimal numeral: one or more digits, with a `-` in front
/// where the number is negative.
pub open spec fn parse_signed(s: Seq<char>) -> Option<int> {
    if s.len() > 0 && s[0] == '-' {
        match parse_decimal(s.drop_first()) {
            Some(n) => Some(-(n as int)),
            None => None,
        }
    } else {
        match parse_decimal(s) {
            Some(n) => Some(n as int),
            None => None,
        }
    }
}

/// Reads a signed decimal numeral that fits in `i64`.
pub fn parse_i64(s: &Vec<char>) -> (r: Option<i64>)
    ensures
        r == match parse_signed(s@) {
            Some(n) => if i64::MIN <= n <= i64::MAX {
                Some(n as i64)
            } else {
                None
            },
            None => None,
        },
{
    if s.len() > 0 && s[0] == '-' {
        let digits = sub_chars(s, 1, s.len());
        assert(digits@ =~= s@.drop_first());
        match parse_u64(&digits) {
            Some(n) => if n <= 0x7fff_ffff_ffff_ffffu64 {
                Some(0 - (n as i64))
            } else if n == 0x8000_0000_0000_0000u64 {
                Some(i64::MIN)
            } else {
                None
            },
            None => None,
        }
    } else {
        match parse_u64(s) {
            Some(n) => if n <= 0x7fff_ffff_ffff_ffffu64 {
                Some(n as i64)
            } else {
                None
            },
            None => None,
        }
    }
}

/// Reading of an unsigned numeral as `str::parse` of the standard library reads one
/// for an unsigned integer type: an optional `+`, then one or more digits.
pub open spec fn parse_unsigned(s: Seq<char>) -> Option<nat> {
    if s.len() > 0 && s[0] == '+' {
        parse_decimal(s.drop_first())
    } else {
        parse_decimal(s)
    }
}

/// Reads an unsigned numeral, with an optional `+` in front, that fits in `u32`.
pub fn parse_u32(s: &Vec<char>) -> (r: Option<u32>)
    ensures
        r == match parse_unsigned(s@) {
            Some(n) => if n <= u32::MAX {
                Some(n as u32)
            } else {
                None
            },
            None => None,
        },
{
    let parsed = if s.len() > 0 && s[0] == '+' {
        let rest = sub_chars(s, 1, s.len());
        assert(rest@ =~= s@.drop_first());
        parse_u64(&rest)
    } else {
        parse_u64(s)
    };
    match parsed {
        Some(n) => if n <= u32::MAX as u64 {
            Some(n as u32)
        } else {
            None
        },
        None => None,
    }
}

/// `s` without the run of `c` at its end.
pub open spec fn strip_trailing(s: Seq<char>, c: char) -> Seq<char>
    decreases s.len(),
{
    if s.len() > 0 && s.last() == c {
        strip_trailing(s.drop_last(), c)
    } else {
        s
    }
}

/// The length of `s` without the run of `c` at its end.
pub fn strip_trailing_len(s: &Vec<char>, c: char) -> (n: usize)
    ensures
        n <= s@.len(),
        s@.take(n as int) == strip_trailing(s@, c),
{
    let mut n: usize = s.len();
    assert(s@.take(n as int) =~= s@);
    while n > 0 && s[n - 1] == c
        invariant
            n <= s@.len(),
            strip_trailing(s@, c) == strip_trailing(s@.take(n as int), c),
        decreases n,
    {
        proof {
            let cur = s@.take(n as int);
            assert(cur.last() == s@[n as int - 1]);
            assert(cur.drop_last() =~= s@.take(n as int - 1));
        }
        n -= 1;
    }
    proof {
        let cur = s@.take(n as int);
        if n > 0 {
            assert(cur.last() == s@[n as int - 1]);
        }
    }
    n
}

// ---------------------------------------------------------------------------
// Prefixes, suffixes, substrings
// ---------------------------------------------------------------------------

/// Whether `pat` stands in `s` at position `at`.
pub open spec fn occurs_at(s: Seq<char>, at: int, pat: Seq<char>) -> bool {
    0 <= at && at + pat.len() <= s.len() && s.subrange(at, at + pat.len()) == pat
}

/// Whether `s` begins with `prefix`.
pub open spec fn starts_with(s: Seq<char>, prefix: Seq<char>) -> bool {
    occurs_at(s, 0, prefix)
}

/// Whether `s` ends with `suffix`.
pub open spec fn ends_with(s: Seq<char>, suffix: Seq<char>) -> bool {
    occurs_at(s, s.len() - suffix.len(), suffix)
}

/// Whether `pat` stands somewhere in `s`.
pub open spec fn contains_str(s: Seq<char>, pat: Seq<char>) -> bool {
    exists|at: int| occurs_at(s, at, pat)
}

/// Whether `pat` stands in `s` at character position `at`.
pub fn matches_at(s: &Vec<char>, at: usize, pat: &Vec<char>) -> (r: bool)
    ensures
        r == occurs_at(s@, at as int, pat@),
{
    if at > s.len() || pat.len() > s.len() - at {
        return false;
    }
    let mut i: usize = 0;
    while i < pat.len()
        invariant
            i <= pat.len(),
            at + pat.len() <= s.len(),
            forall|j: int| 0 <= j < i ==> s@[at + j] == pat@[j],
        decreases pat.len() - i,
    {
        if s[at + i] != pat[i] {
            assert(s@.subrange(at as int, at + pat.len())[i as int] != pat@[i as int]);
            return false;
        }
        i += 1;
    }
    assert(s@.subrange(at as int, at + pat.len()) =~= pat@);
    true
}

/// Whether `s` begins with `prefix`.
pub fn str_starts_with(s: &str, prefix: &str) -> (r: bool)
    ensures
        r == starts_with(s@, prefix@),
{
    let sv = chars_of(s);
    let pv = chars_of(prefix);
    matches_at(&sv, 0, &pv)
}

/// Whether `s` ends with `suffix`.
pub fn str_ends_with(s: &str, suffix: &str) -> (r: bool)
    ensures
        r == ends_with(s@, suffix@),
{
    let sv = chars_of(s);
    let pv = chars_of(suffix);
    if pv.len() > sv.len() {
        return false;
    }
    matches_at(&sv, sv.len() - pv.len(), &pv)
}

/// Whether `pat` stands somewhere in `s`.
pub fn str_contains(s: &str, pat: &str) -> (r: bool)
    ensures
        r == contains_str(s@, pat@),
{
    let sv = chars_of(s);
    let pv = chars_of(pat);
    if pv.len() > sv.len() {
        assert(forall|at: int| !occurs_at(sv@, at, pv@));
        return false;
    }
    let last: usize = sv.len() - pv.len();
    let mut at: usize = 0;
    while at < last
        invariant
            at <= last,
            last == sv.len() - pv.len(),
            sv@ == s@,
            pv@ == pat@,
            forall|k: int| 0 <= k < at ==> !occurs_at(sv@, k, pv@),
        decreases last - at,
    {
        if matches_at(&sv, at, &pv) {
            return true;
        }
        at += 1;
    }
    let r = matches_at(&sv, last, &pv);
    assert(!r ==> forall|k: int| !occurs_at(sv@, k, pv@));
    r
}

// ---------------------------------------------------------------------------
// Splitting on a character
// ---------------------------------------------------------------------------

/// The pieces of `s` between occurrences of `sep`, in order.
///
/// There is always at least one piece; `n` separators give `n + 1` pieces, empty
/// ones included. No piece holds `sep`.
pub open spec fn split(s: Seq<char>, sep: char) -> Seq<Seq<char>>
    decreases s.len(),
{
    if s.len() == 0 {
        seq![Seq::<char>::empty()]
    } else {
        let init = split(s.drop_last(), sep);
        if s.last() == sep {
            init.push(Seq::<char>::empty())
        } else {
            init.update(init.len() - 1, init.last().push(s.last()))
        }
    }
}

/// The part of `s` before its first `sep`, or all of `s` if it holds none.
pub open spec fn before_first(s: Seq<char>, sep: char) -> Seq<char> {
    split(s, sep)[0]
}

/// Splitting gives at least one piece.
pub proof fn lemma_split_nonempty(s: Seq<char>, sep: char)
    ensures
        split(s, sep).len() >= 1,
    decreases s.len(),
{
    if s.len() > 0 {
        lemma_split_nonempty(s.drop_last(), sep);
    }
}

/// A string without the separator is its own single piece.
pub proof fn lemma_split_without_separator(s: Seq<char>, sep: char)
    requires
        !s.contains(sep),
    ensures
        split(s, sep) == seq![s],
    decreases s.len(),
{
    if s.len() > 0 {
        let init = s.drop_last();
        assert forall|i: int| 0 <= i < init.len() implies init[i] != sep by {
            assert(s[i] == init[i]);
            assert(s.contains(s[i]));
        }
        assert(!init.contains(sep));
        lemma_split_without_separator(init, sep);
        assert(s.contains(s.last()));
        assert(init.push(s.last()) =~= s);
        assert(split(s, sep) =~= seq![s]);
    } else {
        assert(s =~= Seq::<char>::empty());
    }
}

/// Joining two strings with the separator, the second of them free of it, adds the
/// second as the last piece.
pub proof fn lemma_split_append(a: Seq<char>, b: Seq<char>, sep: char)
    requires
        !b.contains(sep),
    ensures
        split(a + seq![sep] + b, sep) == split(a, sep).push(b),
    decreases b.len(),
{
    let whole = a + seq![sep] + b;
    if b.len() == 0 {
        assert(whole.drop_last() =~= a);
        assert(whole.last() == sep);
        assert(b =~= Seq::<char>::empty());
    } else {
        let init = b.drop_last();
        assert forall|i: int| 0 <= i < init.len() implies init[i] != sep by {
            assert(b[i] == init[i]);
            assert(b.contains(b[i]));
        }
        assert(!init.contains(sep));
        lemma_split_append(a, init, sep);
        assert(whole.drop_last() =~= a + seq![sep] + init);
        assert(whole.last() == b.last());
        assert(b.contains(b.last()));
        assert(init.push(b.last()) =~= b);
        lemma_split_nonempty(a, sep);
        assert(split(whole, sep) =~= split(a, sep).push(b));
    }
}

/// The pieces of `s` between occurrences of `sep`, as ranges of character positions:
/// piece `k` is `s[r[k].0 .. r[k].1]`.
pub fn split_ranges(s: &Vec<char>, sep: char) -> (r: Vec<(usize, usize)>)
    ensures
        r@.len() == split(s@, sep).len(),
        forall|k: int|
            0 <= k < r@.len() ==> (#[trigger] r@[k]).0 <= r@[k].1 <= s@.len() && s@.subrange(
                r@[k].0 as int,
                r@[k].1 as int,
            ) == split(s@, sep)[k],
{
    let mut r: Vec<(usize, usize)> = Vec::new();
    let mut start: usize = 0;
    let mut i: usize = 0;
    proof {
        assert(s@.take(0) =~= Seq::<char>::empty());
        assert(s@.subrange(0, 0) =~= Seq::<char>::empty());
    }
    while i < s.len()
        invariant
            start <= i <= s.len(),
            r@.len() + 1 == split(s@.take(i as int), sep).len(),
            forall|k: int|
                0 <= k < r@.len() ==> (#[trigger] r@[k]).0 <= r@[k].1 <= s@.len() && s@.subrange(
                    r@[k].0 as int,
                    r@[k].1 as int,
                ) == split(s@.take(i as int), sep)[k],
            s@.subrange(start as int, i as int) == split(s@.take(i as int), sep).last(),
        decreases s.len() - i,
    {
        let ghost prev = split(s@.take(i as int), sep);
        let ghost next = split(s@.take(i as int + 1), sep);
        proof {
            let t = s@.take(i as int + 1);
            assert(t.drop_last() =~= s@.take(i as int));
            assert(t.last() == s@[i as int]);
        }
        if s[i] == sep {
            r.push((start, i));
            start = i + 1;
            proof {
                assert(next == prev.push(Seq::<char>::empty()));
                assert(s@.subrange(start as int, i as int + 1) =~= Seq::<char>::empty());
            }
        } else {
            proof {
                assert(next == prev.update(prev.len() - 1, prev.last().push(s@[i as int])));
                assert(s@.subrange(start as int, i as int + 1) =~= s@.subrange(
                    start as int,
                    i as int,
                ).push(s@[i as int]));
            }
        }
        i += 1;
    }
    proof {
        assert(s@.take(i as int) =~= s@);
    }
    r.push((start, i));
    r
}

// ---------------------------------------------------------------------------
// White space and trimming
// ---------------------------------------------------------------------------

/// Whether `c` has the Unicode property `White_Space`: the controls from tab to
/// carriage return, the space, next line, the no-break space, the Ogham space
/// mark, the spaces from en quad to hair space, the line and the paragraph
/// separator, the narrow no-break space, the medium mathematical space and the
/// ideographic space.
pub open spec fn white_space(c: char) -> bool {
    let u = c as u32;
    (0x09 <= u <= 0x0D) || u == 0x20 || u == 0x85 || u == 0xA0 || u == 0x1680 || (0x2000 <= u
        <= 0x200A) || u == 0x2028 || u == 0x2029 || u == 0x202F || u == 0x205F || u == 0x3000
}

/// `char::is_whitespace` of the standard library, which tells whether a character
/// has the Unicode property `White_Space`: the characters that have it are those
/// that [`white_space`] lists.
#[verifier::external_body]
pub(crate) fn is_white_space(c: char) -> (r: bool)
    ensures
        r == white_space(c),
{
    c.is_whitespace()
}

/// `s` without its leading white space.
pub open spec fn trim_start(s: Seq<char>) -> Seq<char>
    decreases s.len(),
{
    if s.len() > 0 && white_space(s[0]) {
        trim_start(s.drop_first())
    } else {
        s
    }
}

/// `s` without its trailing white space.
pub open spec fn trim_end(s: Seq<char>) -> Seq<char>
    decreases s.len(),
{
    if s.len() > 0 && white_space(s.last()) {
        trim_end(s.drop_last())
    } else {
        s
    }
}

/// `s` without leading and trailing white space.
pub open spec fn trim(s: Seq<char>) -> Seq<char> {
    trim_end(trim_start(s))
}

/// Narrows the range `from..to` of `s` to what is left after trimming white space
/// at both ends.
pub fn trim_range(s: &Vec<char>, from: usize, to: usize) -> (r: (usize, usize))
    requires
        from <= to <= s@.len(),
    ensures
        from <= r.0 <= r.1 <= to,
        s@.subrange(r.0 as int, r.1 as int) == trim(s@.subrange(from as int, to as int)),
{
    let mut a: usize = from;
    while a < to && is_white_space(s[a])
        invariant
            from <= a <= to <= s@.len(),
            trim_start(s@.subrange(from as int, to as int)) == trim_start(
                s@.subrange(a as int, to as int),
            ),
        decreases to - a,
    {
        proof {
            let cur = s@.subrange(a as int, to as int);
            assert(cur[0] == s@[a as int]);
            assert(cur.drop_first() =~= s@.subrange(a as int + 1, to as int));
        }
        a += 1;
    }
    proof {
        let cur = s@.subrange(a as int, to as int);
        if a < to {
            assert(cur[0] == s@[a as int]);
        }
        assert(trim_start(cur) == cur);
    }
    let mut b: usize = to;
    while b > a && is_white_space(s[b - 1])
        invariant
            a <= b <= to <= s@.len(),
            trim_end(s@.subrange(a as int, to as int)) == trim_end(s@.subrange(a as int, b as int)),
        decreases b - a,
    {
        proof {
            let cur = s@.subrange(a as int, b as int);
            assert(cur.last() == s@[b as int - 1]);
            assert(cur.drop_last() =~= s@.subrange(a as int, b as int - 1));
        }
        b -= 1;
    }
    proof {
        let cur = s@.subrange(a as int, b as int);
        if b > a {
            assert(cur.last() == s@[b as int - 1]);
        }
        assert(trim_end(cur) == cur);
    }
    (a, b)
}

/// `s` in lower case, as `str::to_lowercase` writes it.
pub uninterp spec fn lowercase(s: Seq<char>) -> Seq<char>;

/// `str::to_lowercase` of the standard library: the result is what [`lowercase`]
/// names. Nothing else is claimed of it.
#[verifier::external_body]
pub(crate) fn to_lowercase(s: &str) -> (r: String)
    ensures
        r@ == lowercase(s@),
{
    s.to_lowercase()
}

/// A copy of the characters `from..to` of `s`.
pub fn substring(s: &str, from: usize, to: usize) -> (r: String)
    requires
        from <= to <= s@.len(),
    ensures
        r@ == s@.subrange(from as int, to as int),
{
    String::from_str(s.substring_char(from, to))
}

/// `s` without leading and trailing white space.
pub fn trimmed(s: &str) -> (r: String)
    ensures
        r@ == trim(s@),
{
    let v = chars_of(s);
    let (a, b) = trim_range(&v, 0, v.len());
    assert(v@.subrange(0, v.len() as int) =~= v@);
    substring(s, a, b)
}

// ---------------------------------------------------------------------------
// Optional strings and vectors of strings
// ---------------------------------------------------------------------------

/// The characters of an optional string.
pub open spec fn opt_chars(s: Option<String>) -> Option<Seq<char>> {
    match s {
        Some(s) => Some(s@),
        None => None,
    }
}

/// The character sequences of a sequence of strings.
pub open spec fn strings_view(v: Seq<String>) -> Seq<Seq<char>> {
    v.map_values(|s: String| s@)
}

/// Appends a copy of `s` to a vector of strings.
pub fn push_str(v: &mut Vec<String>, s: &str)
    ensures
        strings_view(final(v)@) == strings_view(old(v)@).push(s@),
        final(v)@.len() == old(v)@.len() + 1,
{
    v.push(String::from_str(s));
    assert(strings_view(v@) =~= strings_view(old(v)@).push(s@));
}

/// Appends `s` to a vector of strings.
pub fn push_string(v: &mut Vec<String>, s: String)
    ensures
        strings_view(final(v)@) == strings_view(old(v)@).push(s@),
        final(v)@.len() == old(v)@.len() + 1,
{
    v.push(s);
    assert(strings_view(v@) =~= strings_view(old(v)@).push(s@));
}

/// `a` followed by `b`.
pub fn concat2(a: &str, b: &str) -> (r: String)
    ensures
        r@ == a@ + b@,
{
    let mut r = String::from_str(a);
    r.append(b);
    r
}

/// `a`, `b` and `c` in a row.
pub fn concat3(a: &str, b: &str, c: &str) -> (r: String)
    ensures
        r@ == a@ + b@ + c@,
{
    let mut r = String::from_str(a);
    r.append(b);
    r.append(c);
    r
}

/// A copy of an optional string.
pub fn clone_opt(s: &Option<String>) -> (r: Option<String>)
    ensures
        opt_chars(r) == opt_chars(*s),
{
    match s {
        Some(x) => Some(x.clone()),
        None => None,
    }
}

} // verus!
