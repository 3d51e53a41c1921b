//! Small string-building helpers: appending single characters and
//! rendering unsigned numbers as decimal text.

use vstd::prelude::*;

verus! {

/// Relies on `String::push`: appends exactly one character at the end.
#[verifier::external_body]
pub fn push_char(s: &mut String, c: char)
    ensures
        final(s)@ == old(s)@.push(c),
{
    s.push(c);
}

/// The character for one decimal digit.
pub open spec fn spec_digit_char(dd: int) -> char {
    if dd == 0 {
        '0'
    } else if dd == 1 {
        '1'
    } else if dd == 2 {
        '2'
    } else if dd == 3 {
        '3'
    } else if dd == 4 {
        '4'
    } else if dd == 5 {
        '5'
    } else if dd == 6 {
        '6'
    } else if dd == 7 {
        '7'
    } else if dd == 8 {
        '8'
    } else {
        '9'
    }
}

/// The decimal digit sequence of a non-negative number, no leading
/// zeros (a single zero for 0).
pub open spec fn spec_dec_digits(n: int) -> Seq<char>
    decreases n,
{
    if n < 10 {
        seq![spec_digit_char(n)]
    } else {
        spec_dec_digits(n / 10).push(spec_digit_char(n % 10))
    }
}

/// The character for one decimal digit.
pub fn digit_char(dd: u32) -> (r: char)
    requires
        dd < 10,
    ensures
        r == spec_digit_char(dd as int),
{
    if dd == 0 {
        '0'
    } else if dd == 1 {
        '1'
    } else if dd == 2 {
        '2'
    } else if dd == 3 {
        '3'
    } else if dd == 4 {
        '4'
    } else if dd == 5 {
        '5'
    } else if dd == 6 {
        '6'
    } else if dd == 7 {
        '7'
    } else if dd == 8 {
        '8'
    } else {
        '9'
    }
}

/// Append the decimal rendering of `n` to `s`.
pub fn push_dec(s: &mut String, n: u32)
    ensures
        final(s)@ == old(s)@ + spec_dec_digits(n as int),
    decreases n,
{
    if n < 10 {
        push_char(s, digit_char(n));
        proof {
            assert(old(s)@.push(spec_digit_char(n as int)) =~= old(s)@ + seq![
                spec_digit_char(n as int),
            ]);
        }
    } else {
        push_dec(s, n / 10);
        push_char(s, digit_char(n % 10));
        proof {
            assert((old(s)@ + spec_dec_digits(n as int / 10)).push(
                spec_digit_char(n as int % 10),
            ) =~= old(s)@ + spec_dec_digits(n as int / 10).push(spec_digit_char(n as int % 10)));
        }
    }
}

/// The decimal rendering of `n` zero-padded on the left to at least
/// four characters.
pub open spec fn spec_pad4(n: int) -> Seq<char> {
    if n < 10 {
        seq!['0', '0', '0'] + spec_dec_digits(n)
    } else if n < 100 {
        seq!['0', '0'] + spec_dec_digits(n)
    } else if n < 1000 {
        seq!['0'] + spec_dec_digits(n)
    } else {
        spec_dec_digits(n)
    }
}

/// The decimal rendering of `n` zero-padded on the left to at least
/// two characters.
pub open spec fn spec_pad2(n: int) -> Seq<char> {
    if n < 10 {
        seq!['0'] + spec_dec_digits(n)
    } else {
        spec_dec_digits(n)
    }
}

/// Append the decimal rendering of `n`, zero-padded to four characters.
pub fn push_pad4(s: &mut String, n: u32)
    ensures
        final(s)@ == old(s)@ + spec_pad4(n as int),
{
    let ghost s0 = s@;
    if n < 10 {
        push_char(s, '0');
        push_char(s, '0');
        push_char(s, '0');
        push_dec(s, n);
        proof {
            assert(s0.push('0').push('0').push('0') + spec_dec_digits(n as int) =~= s0 + (seq![
                '0',
                '0',
                '0',
            ] + spec_dec_digits(n as int)));
        }
    } else if n < 100 {
        push_char(s, '0');
        push_char(s, '0');
        push_dec(s, n);
        proof {
            assert(s0.push('0').push('0') + spec_dec_digits(n as int) =~= s0 + (seq!['0', '0']
                + spec_dec_digits(n as int)));
        }
    } else if n < 1000 {
        push_char(s, '0');
        push_dec(s, n);
        proof {
            assert(s0.push('0') + spec_dec_digits(n as int) =~= s0 + (seq!['0'] + spec_dec_digits(
                n as int,
            )));
        }
    } else {
        push_dec(s, n);
    }
}

/// Append the decimal rendering of `n`, zero-padded to two characters.
pub fn push_pad2(s: &mut String, n: u32)
    ensures
        final(s)@ == old(s)@ + spec_pad2(n as int),
{
    let ghost s0 = s@;
    if n < 10 {
        push_char(s, '0');
        push_dec(s, n);
        proof {
            assert(s0.push('0') + spec_dec_digits(n as int) =~= s0 + (seq!['0'] + spec_dec_digits(
                n as int,
            )));
        }
    } else {
        push_dec(s, n);
    }
}


/// Whether `c` is a whitespace character: the Unicode `White_Space` set.
pub open spec fn spec_is_ws(c: char) -> bool {
    c == ' ' || ('\u{9}' <= c <= '\u{d}') || c == '\u{85}' || c == '\u{a0}' || c == '\u{1680}'
        || ('\u{2000}' <= c <= '\u{200a}') || c == '\u{2028}' || c == '\u{2029}' || c
        == '\u{202f}' || c == '\u{205f}' || c == '\u{3000}'
}

/// Whether `c` is a whitespace character.
pub fn is_ws(c: char) -> (r: bool)
    ensures
        r == spec_is_ws(c),
{
    c == ' ' || ('\u{9}' <= c && c <= '\u{d}') || c == '\u{85}' || c == '\u{a0}' || c
        == '\u{1680}' || ('\u{2000}' <= c && c <= '\u{200a}') || c == '\u{2028}' || c
        == '\u{2029}' || c == '\u{202f}' || c == '\u{205f}' || c == '\u{3000}'
}

/// `s` with its leading whitespace removed.
pub open spec fn spec_trim_start(s: Seq<char>) -> Seq<char>
    decreases s.len(),
{
    if s.len() > 0 && spec_is_ws(s[0]) {
        spec_trim_start(s.skip(1))
    } else {
        s
    }
}

/// `s` with its trailing whitespace removed.
pub open spec fn spec_trim_end(s: Seq<char>) -> Seq<char>
    decreases s.len(),
{
    if s.len() > 0 && spec_is_ws(s.last()) {
        spec_trim_end(s.drop_last())
    } else {
        s
    }
}

/// `s` with leading and trailing whitespace removed.
pub open spec fn spec_trim(s: Seq<char>) -> Seq<char> {
    spec_trim_end(spec_trim_start(s))
}

/// Trimming the front skips exactly the leading run of whitespace.
proof fn lemma_trim_start_skip(s: Seq<char>, a: int)
    requires
        0 <= a <= s.len(),
        forall|j: int| 0 <= j < a ==> spec_is_ws(#[trigger] s[j]),
        a < s.len() ==> !spec_is_ws(s[a]),
    ensures
        spec_trim_start(s) == s.skip(a),
    decreases a,
{
    if a == 0 {
        if s.len() > 0 && spec_is_ws(s[0]) {
            assert(false);
        }
        assert(s.skip(0) =~= s);
    } else {
        assert(spec_is_ws(s[0]));
        lemma_trim_start_skip(s.skip(1), a - 1);
        assert(s.skip(1).skip(a - 1) =~= s.skip(a));
    }
}

/// Trimming the back drops exactly the trailing run of whitespace.
proof fn lemma_trim_end_take(s: Seq<char>, b: int)
    requires
        0 <= b <= s.len(),
        forall|j: int| b <= j < s.len() ==> spec_is_ws(#[trigger] s[j]),
        b > 0 ==> !spec_is_ws(s[b - 1]),
    ensures
        spec_trim_end(s) == s.take(b),
    decreases s.len() - b,
{
    if b == s.len() {
        if s.len() > 0 && spec_is_ws(s.last()) {
            assert(false);
        }
        assert(s.take(b) =~= s);
    } else {
        assert(spec_is_ws(s.last()));
        lemma_trim_end_take(s.drop_last(), b);
        assert(s.drop_last().take(b) =~= s.take(b));
    }
}

/// The characters of `s`, one by one.
pub fn chars_of(s: &str) -> (v: Vec<char>)
    ensures
        v@ == s@,
{
    let n = s.unicode_len();
    let mut v: Vec<char> = Vec::new();
    for i in 0..n
        invariant
            n == s@.len(),
            v@.len() == i,
            forall|j: int| 0 <= j < i ==> v@[j] == s@[j],
    {
        v.push(s.get_char(i));
    }
    proof {
        assert(v@ =~= s@);
    }
    v
}

/// The trimmed text of `v[from..to]`, as an owned string.
pub fn trimmed_string(v: &Vec<char>, from: usize, to: usize) -> (r: String)
    requires
        from <= to <= v@.len(),
    ensures
        r@ == spec_trim(v@.subrange(from as int, to as int)),
{
    let ghost s = v@.subrange(from as int, to as int);
    let mut a = from;
    while a < to && is_ws(v[a])
        invariant
            from <= a <= to <= v@.len(),
            s == v@.subrange(from as int, to as int),
            forall|j: int| 0 <= j < a - from ==> spec_is_ws(#[trigger] s[j]),
        decreases to - a,
    {
        a = a + 1;
    }
    proof {
        lemma_trim_start_skip(s, a - from);
    }
    let ghost t = s.skip(a - from);
    let mut b = to;
    while b > a && is_ws(v[b - 1])
        invariant
            from <= a <= b <= to <= v@.len(),
            s == v@.subrange(from as int, to as int),
            t == s.skip(a - from),
            forall|j: int| b - a <= j < t.len() ==> spec_is_ws(#[trigger] t[j]),
        decreases b,
    {
        b = b - 1;
    }
    proof {
        lemma_trim_end_take(t, b - a);
    }
    let mut r = String::new();
    let mut i = a;
    while i < b
        invariant
            from <= a <= i <= b <= to <= v@.len(),
            s == v@.subrange(from as int, to as int),
            t == s.skip(a - from),
            r@.len() == i - a,
            forall|j: int| 0 <= j < i - a ==> r@[j] == t[j],
        decreases b - i,
    {
        push_char(&mut r, v[i]);
        i = i + 1;
    }
    proof {
        assert(r@ =~= t.take(b - a));
    }
    r
}

/// The ASCII-lowercase image of one character: letters `A` to `Z` are
/// folded, everything else is kept.
pub open spec fn spec_ascii_lower(c: char) -> char {
    if 'A' <= c <= 'Z' {
        ((c as u8) + 32) as char
    } else {
        c
    }
}

/// The ASCII-lowercase image of a character sequence.
pub open spec fn spec_lower(s: Seq<char>) -> Seq<char> {
    s.map_values(|c: char| spec_ascii_lower(c))
}

/// Fold one character to ASCII lowercase.
pub fn ascii_lower(c: char) -> (r: char)
    ensures
        r == spec_ascii_lower(c),
{
    if 'A' <= c && c <= 'Z' {
        ((c as u8) + 32) as char
    } else {
        c
    }
}

} // verus!
