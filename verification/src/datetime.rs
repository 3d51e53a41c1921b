//! Parsing of the ASCII date-time, subsecond and time-zone-offset
//! fields of the metadata format.

use vstd::prelude::*;
use crate::error::Error;
use crate::strutil::{push_char, push_pad2, push_pad4, spec_pad2, spec_pad4};

verus! {

/// A parsed date-time field.
#[derive(Debug, Clone, Copy, PartialEq, Eq)]
pub struct DateTime {
    pub year: u16,
    pub month: u8,
    pub day: u8,
    pub hour: u8,
    pub minute: u8,
    pub second: u8,
    /// The subsecond data in nanoseconds.  If the field has more
    /// significant digits, they are rounded down.
    pub nanosecond: Option<u32>,
    /// The offset of the time zone in minutes.
    pub offset: Option<i16>,
}

/// Whether `c` is an ASCII decimal digit.
pub open spec fn spec_is_digit(c: u8) -> bool {
    48 <= c <= 57
}

/// The value of the decimal digit string `s` (most significant first).
pub open spec fn spec_dec_value(s: Seq<u8>) -> int
    decreases s.len(),
{
    if s.len() == 0 {
        0
    } else {
        spec_dec_value(s.drop_last()) * 10 + (s.last() - 48)
    }
}

/// Ten to the power `n`.
pub open spec fn spec_ten_pow(n: int) -> int
    decreases n,
{
    if n <= 0 {
        1
    } else {
        10 * spec_ten_pow(n - 1)
    }
}

/// What parsing a decimal number field yields: the value of the digits,
/// or a fault if the field is empty or holds a non-digit byte.
pub open spec fn spec_atou16(s: Seq<u8>) -> Result<u16, Error> {
    if s.len() == 0 {
        Err(Error::NotANumber)
    } else if exists|i: int| 0 <= i < s.len() && !spec_is_digit(#[trigger] s[i]) {
        Err(Error::NotANumber)
    } else {
        Ok(spec_dec_value(s) as u16)
    }
}

/// Parse `data[start..end]` as an unsigned decimal number.
fn atou16(data: &[u8], start: usize, end: usize) -> (r: Result<u16, Error>)
    requires
        start <= end <= data@.len(),
        end - start <= 4,
    ensures
        r == spec_atou16(data@.subrange(start as int, end as int)),
        r matches Ok(v) ==> v < spec_ten_pow(end - start),
{
    let ghost s = data@.subrange(start as int, end as int);
    if start == end {
        return Err(Error::NotANumber);
    }
    let mut n: u16 = 0;
    let mut i = start;
    while i < end
        invariant
            start <= i <= end <= data@.len(),
            end - start <= 4,
            s == data@.subrange(start as int, end as int),
            forall|j: int| 0 <= j < i - start ==> spec_is_digit(#[trigger] s[j]),
            n as int == spec_dec_value(s.take(i - start)),
            n < spec_ten_pow(i - start),
        decreases end - i,
    {
        let c = data[i];
        if c < 48 || c > 57 {
            proof {
                assert(s[i - start] == c);
            }
            return Err(Error::NotANumber);
        }
        proof {
            assert(s.take(i + 1 - start).drop_last() =~= s.take(i - start));
            assert(s.take(i + 1 - start).last() == s[i - start] == c);
            lemma_ten_pow_values();
            lemma_ten_pow_mono(i - start, 3);
        }
        n = n * 10 + (c - 48) as u16;
        i = i + 1;
    }
    proof {
        assert(s.take(end - start) =~= s);
        assert(forall|j: int| 0 <= j < s.len() ==> spec_is_digit(#[trigger] s[j]));
        assert(spec_atou16(s) == Ok::<u16, Error>(spec_dec_value(s) as u16));
    }
    Ok(n)
}

/// The blank date-time pattern with separators.
pub open spec fn spec_blank_dt_sep() -> Seq<u8> {
    Seq::new(
        19,
        |i: int|
            if i == 4 || i == 7 || i == 13 || i == 16 {
                58u8
            } else {
                32u8
            },
    )
}

/// The all-spaces blank pattern of length `n`.
pub open spec fn spec_blanks(n: nat) -> Seq<u8> {
    Seq::new(n, |i: int| 32u8)
}

/// The blank offset-time pattern with a separator.
pub open spec fn spec_blank_offset_sep() -> Seq<u8> {
    Seq::new(6, |i: int| if i == 3 { 58u8 } else { 32u8 })
}

/// Whether `data` equals the pattern of length `n` that is all spaces
/// except for colons at the positions `pat` maps to one.
fn matches_pattern(data: &[u8], pat: Ghost<Seq<u8>>, c4: bool, n: usize) -> (r: bool)
    requires
        pat@.len() == n,
        n == 19 || n == 6,
        n == 19 ==> pat@ == spec_blank_dt_sep() || pat@ == spec_blanks(19),
        n == 6 ==> pat@ == spec_blank_offset_sep() || pat@ == spec_blanks(6),
        c4 <==> (pat@ == spec_blank_dt_sep() || pat@ == spec_blank_offset_sep()),
    ensures
        r == (data@ == pat@),
{
    if data.len() != n {
        proof {
            assert(data@.len() != pat@.len());
        }
        return false;
    }
    let mut i: usize = 0;
    while i < n
        invariant
            data@.len() == n,
            pat@.len() == n,
            i <= n,
            n == 19 || n == 6,
            n == 19 ==> pat@ == spec_blank_dt_sep() || pat@ == spec_blanks(19),
            n == 6 ==> pat@ == spec_blank_offset_sep() || pat@ == spec_blanks(6),
            c4 <==> (pat@ == spec_blank_dt_sep() || pat@ == spec_blank_offset_sep()),
            forall|j: int| 0 <= j < i ==> data@[j] == pat@[j],
        decreases n - i,
    {
        let expected: u8 = if c4 && (i == 3 && n == 6 || n == 19 && (i == 4 || i == 7 || i == 13
            || i == 16)) {
            58
        } else {
            32
        };
        proof {
            assert(pat@[i as int] == expected);
        }
        if data[i] != expected {
            proof {
                assert(data@[i as int] != pat@[i as int]);
            }
            return false;
        }
        i = i + 1;
    }
    proof {
        assert(data@ =~= pat@);
    }
    true
}

/// What parsing an ASCII date-time field yields.
///
/// A blank field (all spaces, with or without the separators) is
/// reported as blank; a shorter-than-fixed-layout field and wrong
/// separators are format faults; the six numeric fields must all be
/// decimal digits.  The ranges of the numbers are not validated, so 13
/// may come back as the month.
pub open spec fn spec_from_ascii(s: Seq<u8>) -> Result<DateTime, Error> {
    if s == spec_blank_dt_sep() || s == spec_blanks(19) {
        Err(Error::BlankDateTime)
    } else if s.len() < 19 {
        Err(Error::DateTimeTooShort)
    } else if !(s[4] == 58 && s[7] == 58 && s[10] == 32 && s[13] == 58 && s[16] == 58) {
        Err(Error::InvalidDateTimeDelimiter)
    } else {
        match spec_atou16(s.subrange(0, 4)) {
            Err(e) => Err(e),
            Ok(year) => match spec_atou16(s.subrange(5, 7)) {
                Err(e) => Err(e),
                Ok(month) => match spec_atou16(s.subrange(8, 10)) {
                    Err(e) => Err(e),
                    Ok(day) => match spec_atou16(s.subrange(11, 13)) {
                        Err(e) => Err(e),
                        Ok(hour) => match spec_atou16(s.subrange(14, 16)) {
                            Err(e) => Err(e),
                            Ok(minute) => match spec_atou16(s.subrange(17, 19)) {
                                Err(e) => Err(e),
                                Ok(second) => Ok(
                                    DateTime {
                                        year,
                                        month: month as u8,
                                        day: day as u8,
                                        hour: hour as u8,
                                        minute: minute as u8,
                                        second: second as u8,
                                        nanosecond: None,
                                        offset: None,
                                    },
                                ),
                            },
                        },
                    },
                },
            },
        }
    }
}

/// One step of the subsecond scan: consume digits until a space, the
/// end, or nine digits, accumulating the value.
pub open spec fn spec_subsec_scan(s: Seq<u8>, i: int, acc: int, nd: int) -> Result<(int, int), Error>
    decreases s.len() - i,
{
    if i < 0 || i >= s.len() {
        Ok((acc, nd))
    } else if s[i] == 32 {
        Ok((acc, nd))
    } else if !spec_is_digit(s[i]) {
        Err(Error::NotANumber)
    } else {
        let acc2 = acc * 10 + (s[i] - 48);
        if nd + 1 >= 9 {
            Ok((acc2, nd + 1))
        } else {
            spec_subsec_scan(s, i + 1, acc2, nd + 1)
        }
    }
}

/// What parsing a subsecond field yields: the nanosecond value (the
/// digits, rounded down to at most nine and padded up to nine), or
/// `None` for an empty field.
pub open spec fn spec_parse_subsec(s: Seq<u8>) -> Result<Option<u32>, Error> {
    match spec_subsec_scan(s, 0, 0, 0) {
        Err(e) => Err(e),
        Ok((acc, nd)) => if nd == 0 {
            Ok(None)
        } else {
            Ok(Some((acc * spec_ten_pow(9 - nd)) as u32))
        },
    }
}

/// What parsing a time-zone-offset field yields: the signed offset in
/// minutes, or the fault.
pub open spec fn spec_parse_offset(s: Seq<u8>) -> Result<i16, Error> {
    if s == spec_blank_offset_sep() || s == spec_blanks(6) {
        Err(Error::BlankOffsetTime)
    } else if s.len() < 6 {
        Err(Error::OffsetTimeTooShort)
    } else if s[3] != 58 {
        Err(Error::InvalidOffsetTimeDelimiter)
    } else {
        match spec_atou16(s.subrange(1, 3)) {
            Err(e) => Err(e),
            Ok(hour) => match spec_atou16(s.subrange(4, 6)) {
                Err(e) => Err(e),
                Ok(minute) => {
                    let ofs = (hour * 60 + minute) as i16;
                    if s[0] == 43 {
                        Ok(ofs)
                    } else if s[0] == 45 {
                        Ok((-ofs) as i16)
                    } else {
                        Err(Error::InvalidOffsetTimeSign)
                    }
                },
            },
        }
    }
}

/// The display rendering of a date-time: zero-padded fields joined by
/// the usual separators.
pub open spec fn spec_dt_display(dt: DateTime) -> Seq<char> {
    spec_pad4(dt.year as int) + seq!['-'] + spec_pad2(dt.month as int) + seq!['-'] + spec_pad2(
        dt.day as int,
    ) + seq![' '] + spec_pad2(dt.hour as int) + seq![':'] + spec_pad2(dt.minute as int) + seq![':']
        + spec_pad2(dt.second as int)
}

impl DateTime {
    /// Parse an ASCII date-time field, exactly as `spec_from_ascii`
    /// states.  The range of each number is not validated, so, for
    /// example, 13 may be returned as the month.
    pub fn from_ascii(data: &[u8]) -> (r: Result<DateTime, Error>)
        ensures
            r == spec_from_ascii(data@),
    {
        proof {
            assert(spec_blank_dt_sep()[4] == 58u8 && spec_blanks(19)[4] == 32u8);
            assert(spec_blank_offset_sep().len() == 6);
        }
        let blank_sep = matches_pattern(data, Ghost(spec_blank_dt_sep()), true, 19);
        let blank_all = matches_pattern(data, Ghost(spec_blanks(19)), false, 19);
        if blank_sep || blank_all {
            return Err(Error::BlankDateTime);
        }
        if data.len() < 19 {
            return Err(Error::DateTimeTooShort);
        }
        if !(data[4] == 58 && data[7] == 58 && data[10] == 32 && data[13] == 58 && data[16] == 58) {
            return Err(Error::InvalidDateTimeDelimiter);
        }
        let year = match atou16(data, 0, 4) {
            Err(e) => {
                return Err(e);
            },
            Ok(v) => v,
        };
        let month = match atou16(data, 5, 7) {
            Err(e) => {
                return Err(e);
            },
            Ok(v) => v,
        };
        let day = match atou16(data, 8, 10) {
            Err(e) => {
                return Err(e);
            },
            Ok(v) => v,
        };
        let hour = match atou16(data, 11, 13) {
            Err(e) => {
                return Err(e);
            },
            Ok(v) => v,
        };
        let minute = match atou16(data, 14, 16) {
            Err(e) => {
                return Err(e);
            },
            Ok(v) => v,
        };
        let second = match atou16(data, 17, 19) {
            Err(e) => {
                return Err(e);
            },
            Ok(v) => v,
        };
        proof {
            lemma_ten_pow_values();
        }
        Ok(
            DateTime {
                year,
                month: month as u8,
                day: day as u8,
                hour: hour as u8,
                minute: minute as u8,
                second: second as u8,
                nanosecond: None,
                offset: None,
            },
        )
    }

    /// Parse a subsecond field into the nanosecond part, exactly as
    /// `spec_parse_subsec` states; a fault leaves the value unchanged.
    pub fn parse_subsec(&mut self, data: &[u8]) -> (r: Result<(), Error>)
        ensures
            match spec_parse_subsec(data@) {
                Ok(ns) => r == Ok::<(), Error>(()) && *final(self) == DateTime {
                    nanosecond: ns,
                    ..*old(self)
                },
                Err(e) => r == Err::<(), Error>(e) && *final(self) == *old(self),
            },
    {
        let ghost s = data@;
        let dlen: usize = data.len();
        let mut subsec: u32 = 0;
        let mut ndigits: u32 = 0;
        let mut i: usize = 0;
        let mut stopped = false;
        while !stopped && i < dlen
            invariant
                dlen == s.len(),
                data@ == s,
                i <= dlen,
                0 <= ndigits <= 9,
                !stopped ==> ndigits < 9,
                subsec < spec_ten_pow(ndigits as int),
                spec_subsec_scan(s, 0, 0, 0) == if stopped {
                    Ok::<(int, int), Error>((subsec as int, ndigits as int))
                } else {
                    spec_subsec_scan(s, i as int, subsec as int, ndigits as int)
                },
            decreases dlen - i + (if stopped {
                0int
            } else {
                1int
            }),
        {
            let c = data[i];
            if c == 32 {
                stopped = true;
            } else if c < 48 || c > 57 {
                return Err(Error::NotANumber);
            } else {
                proof {
                    lemma_ten_pow_values();
                    lemma_ten_pow_mono(ndigits as int, 8);
                    assert(spec_ten_pow(ndigits as int + 1) == 10 * spec_ten_pow(
                        ndigits as int,
                    ));
                }
                subsec = subsec * 10 + (c - 48) as u32;
                ndigits = ndigits + 1;
                i = i + 1;
                if ndigits >= 9 {
                    stopped = true;
                }
            }
        }
        proof {
            if !stopped {
                assert(spec_subsec_scan(s, i as int, subsec as int, ndigits as int) == Ok::<
                    (int, int),
                    Error,
                >((subsec as int, ndigits as int)));
            }
        }
        let ns: Option<u32>;
        if ndigits == 0 {
            proof {
                assert(spec_subsec_scan(data@, 0, 0, 0) == Ok::<(int, int), Error>(
                    (subsec as int, 0int),
                ));
                assert(spec_parse_subsec(data@) == Ok::<Option<u32>, Error>(None));
            }
            ns = None;
        } else {
            let ghost acc0: int = subsec as int;
            let ghost nd0: int = ndigits as int;
            proof {
                assert(spec_subsec_scan(data@, 0, 0, 0) == Ok::<(int, int), Error>((acc0, nd0)));
            }
            while ndigits < 9
                invariant
                    0 < ndigits <= 9,
                    0 < nd0 <= 9,
                    subsec < spec_ten_pow(ndigits as int),
                    spec_subsec_scan(data@, 0, 0, 0) == Ok::<(int, int), Error>((acc0, nd0)),
                    subsec as int * spec_ten_pow(9 - ndigits as int) == acc0 * spec_ten_pow(
                        9 - nd0,
                    ),
                decreases 9 - ndigits,
            {
                proof {
                    lemma_ten_pow_values();
                    lemma_ten_pow_mono(ndigits as int, 8);
                    assert(spec_ten_pow(9 - ndigits as int) == 10 * spec_ten_pow(
                        8 - ndigits as int,
                    ));
                    assert(spec_ten_pow(ndigits as int + 1) == 10 * spec_ten_pow(
                        ndigits as int,
                    ));
                    assert(subsec as int * (10 * spec_ten_pow(8 - ndigits as int)) == (
                    subsec as int * 10) * spec_ten_pow(8 - ndigits as int)) by (nonlinear_arith);
                }
                subsec = subsec * 10;
                ndigits = ndigits + 1;
            }
            proof {
                assert(ndigits == 9);
                assert(spec_ten_pow(0) == 1);
                assert(spec_ten_pow(9 - ndigits as int) == 1);
                assert(subsec as int * spec_ten_pow(9 - ndigits as int) == acc0 * spec_ten_pow(
                    9 - nd0,
                ));
                assert(subsec as int * 1 == subsec as int) by (nonlinear_arith);
                assert(subsec as int == acc0 * spec_ten_pow(9 - nd0));
                assert(spec_parse_subsec(data@) == Ok::<Option<u32>, Error>(
                    Some((acc0 * spec_ten_pow(9 - nd0)) as u32),
                ));
            }
            ns = Some(subsec);
        }
        proof {
            assert(spec_parse_subsec(data@) == Ok::<Option<u32>, Error>(ns));
        }
        self.nanosecond = ns;
        Ok(())
    }

    /// Parse a time-zone-offset field into the offset in minutes,
    /// exactly as `spec_parse_offset` states; a fault leaves the value
    /// unchanged.
    pub fn parse_offset(&mut self, data: &[u8]) -> (r: Result<(), Error>)
        ensures
            match spec_parse_offset(data@) {
                Ok(ofs) => r == Ok::<(), Error>(()) && *final(self) == DateTime {
                    offset: Some(ofs),
                    ..*old(self)
                },
                Err(e) => r == Err::<(), Error>(e) && *final(self) == *old(self),
            },
    {
        proof {
            assert(spec_blank_offset_sep()[3] == 58u8 && spec_blanks(6)[3] == 32u8);
            assert(spec_blank_dt_sep().len() == 19);
        }
        let blank_sep = matches_pattern(data, Ghost(spec_blank_offset_sep()), true, 6);
        let blank_all = matches_pattern(data, Ghost(spec_blanks(6)), false, 6);
        if blank_sep || blank_all {
            return Err(Error::BlankOffsetTime);
        }
        if data.len() < 6 {
            return Err(Error::OffsetTimeTooShort);
        }
        if data[3] != 58 {
            return Err(Error::InvalidOffsetTimeDelimiter);
        }
        let hour = match atou16(data, 1, 3) {
            Err(e) => {
                return Err(e);
            },
            Ok(v) => v,
        };
        let minute = match atou16(data, 4, 6) {
            Err(e) => {
                return Err(e);
            },
            Ok(v) => v,
        };
        proof {
            lemma_ten_pow_values();
        }
        let ofs = (hour * 60 + minute) as i16;
        if data[0] == 43 {
            self.offset = Some(ofs);
            Ok(())
        } else if data[0] == 45 {
            self.offset = Some(-ofs);
            Ok(())
        } else {
            Err(Error::InvalidOffsetTimeSign)
        }
    }

    /// The display rendering: `YYYY-MM-DD hh:mm:ss`.
    pub fn display_string(&self) -> (r: String)
        ensures
            r@ == spec_dt_display(*self),
    {
        let mut s = String::new();
        push_pad4(&mut s, self.year as u32);
        push_char(&mut s, '-');
        push_pad2(&mut s, self.month as u32);
        push_char(&mut s, '-');
        push_pad2(&mut s, self.day as u32);
        push_char(&mut s, ' ');
        push_pad2(&mut s, self.hour as u32);
        push_char(&mut s, ':');
        push_pad2(&mut s, self.minute as u32);
        push_char(&mut s, ':');
        push_pad2(&mut s, self.second as u32);
        proof {
            assert(s@ =~= spec_dt_display(*self));
        }
        s
    }
}

/// The concrete values of the small ten-powers.
proof fn lemma_ten_pow_values()
    ensures
        spec_ten_pow(0) == 1,
        spec_ten_pow(1) == 10,
        spec_ten_pow(2) == 100,
        spec_ten_pow(3) == 1000,
        spec_ten_pow(4) == 10000,
        spec_ten_pow(5) == 100000,
        spec_ten_pow(6) == 1000000,
        spec_ten_pow(7) == 10000000,
        spec_ten_pow(8) == 100000000,
        spec_ten_pow(9) == 1000000000,
{
    assert(spec_ten_pow(0) == 1);
    assert(spec_ten_pow(1) == 10);
    assert(spec_ten_pow(2) == 100);
    assert(spec_ten_pow(3) == 1000);
    assert(spec_ten_pow(4) == 10000);
    assert(spec_ten_pow(5) == 100000);
    assert(spec_ten_pow(6) == 1000000);
    assert(spec_ten_pow(7) == 10000000);
    assert(spec_ten_pow(8) == 100000000);
    assert(spec_ten_pow(9) == 1000000000);
}

/// Ten-powers are at least one.
proof fn lemma_ten_pow_pos(n: int)
    ensures
        spec_ten_pow(n) >= 1,
    decreases n,
{
    if n > 0 {
        lemma_ten_pow_pos(n - 1);
    }
}

/// Ten-powers are monotone in the exponent, and exponents add.
proof fn lemma_ten_pow_mono(a: int, b: int)
    requires
        0 <= a <= b,
    ensures
        spec_ten_pow(a) <= spec_ten_pow(b),
        spec_ten_pow(b - a) * spec_ten_pow(a) == spec_ten_pow(b),
    decreases b - a,
{
    lemma_ten_pow_pos(a);
    lemma_ten_pow_pos(b - a);
    if a < b {
        lemma_ten_pow_mono(a, b - 1);
        let p = spec_ten_pow(b - 1 - a);
        let q = spec_ten_pow(a);
        assert(spec_ten_pow(b - a) == 10 * p);
        assert(spec_ten_pow(b) == 10 * spec_ten_pow(b - 1));
        assert((10 * p) * q == 10 * (p * q)) by (nonlinear_arith);
        assert(spec_ten_pow(b - 1) <= 10 * spec_ten_pow(b - 1));
    }
}

} // verus!
