//! Typed tag values: the type-length table, the decoded payload kinds,
//! and the decoding of a (type, count, offset) triple against a buffer.

use vstd::prelude::*;
use crate::endian::{spec_u16, spec_u32, loadu16, loadu32};

verus! {

/// An unsigned rational number: a numerator over a denominator.
#[derive(Debug, Clone, Copy, PartialEq, Eq, Structural)]
pub struct Rational {
    pub num: u32,
    pub denom: u32,
}

/// A signed rational number: a numerator over a denominator.
#[derive(Debug, Clone, Copy, PartialEq, Eq, Structural)]
pub struct SRational {
    pub num: i32,
    pub denom: i32,
}

/// A decoded, typed tag payload, or an opaque descriptor.
///
/// `Unknown` carries the raw (type code, element count, byte offset)
/// triple of a value whose type code has no registered width; such a
/// value is surfaced to the caller undecoded, and it is also the form
/// in which a value waits before materialization.
#[derive(Debug, Clone, PartialEq, Eq)]
pub enum Value {
    Byte(Vec<u8>),
    Short(Vec<u16>),
    Long(Vec<u32>),
    Rational(Vec<Rational>),
    SByte(Vec<i8>),
    Undefined(Vec<u8>, u32),
    SShort(Vec<i16>),
    SLong(Vec<i32>),
    SRational(Vec<SRational>),
    Unknown(u16, u32, u32),
}

/// The mathematical model of a `Value`: the same kinds over sequences.
pub enum ValueModel {
    Byte(Seq<u8>),
    Short(Seq<u16>),
    Long(Seq<u32>),
    Rational(Seq<Rational>),
    SByte(Seq<i8>),
    Undefined(Seq<u8>, u32),
    SShort(Seq<i16>),
    SLong(Seq<i32>),
    SRational(Seq<SRational>),
    Unknown(u16, u32, u32),
}

impl View for Value {
    type V = ValueModel;

    open spec fn view(&self) -> ValueModel {
        match self {
            Value::Byte(v) => ValueModel::Byte(v@),
            Value::Short(v) => ValueModel::Short(v@),
            Value::Long(v) => ValueModel::Long(v@),
            Value::Rational(v) => ValueModel::Rational(v@),
            Value::SByte(v) => ValueModel::SByte(v@),
            Value::Undefined(v, o) => ValueModel::Undefined(v@, *o),
            Value::SShort(v) => ValueModel::SShort(v@),
            Value::SLong(v) => ValueModel::SLong(v@),
            Value::SRational(v) => ValueModel::SRational(v@),
            Value::Unknown(t, c, o) => ValueModel::Unknown(*t, *c, *o),
        }
    }
}

/// The per-unit byte width of a declared type code; zero for a code
/// with no registered decoder.
pub open spec fn spec_unit_len(typ: int) -> int {
    if typ == 1 || typ == 6 || typ == 7 {
        1
    } else if typ == 3 || typ == 8 {
        2
    } else if typ == 4 || typ == 9 {
        4
    } else if typ == 5 || typ == 10 {
        8
    } else {
        0
    }
}

/// Look up the per-unit byte width of a type code.
pub fn unit_len(typ: u16) -> (r: usize)
    ensures
        r as int == spec_unit_len(typ as int),
{
    if typ == 1 || typ == 6 || typ == 7 {
        1
    } else if typ == 3 || typ == 8 {
        2
    } else if typ == 4 || typ == 9 {
        4
    } else if typ == 5 || typ == 10 {
        8
    } else {
        0
    }
}

/// The model of the payload decoded from `cnt` units of type `typ`
/// stored at `ofs`, in the given byte order.
pub open spec fn spec_decode(d: Seq<u8>, le: bool, typ: u16, cnt: u32, ofs: u32) -> ValueModel {
    let o = ofs as int;
    let n = cnt as nat;
    if typ == 1 {
        ValueModel::Byte(d.subrange(o, o + n))
    } else if typ == 3 {
        ValueModel::Short(Seq::new(n, |i: int| spec_u16(d, le, o + 2 * i) as u16))
    } else if typ == 4 {
        ValueModel::Long(Seq::new(n, |i: int| spec_u32(d, le, o + 4 * i) as u32))
    } else if typ == 5 {
        ValueModel::Rational(
            Seq::new(
                n,
                |i: int|
                    Rational {
                        num: spec_u32(d, le, o + 8 * i) as u32,
                        denom: spec_u32(d, le, o + 8 * i + 4) as u32,
                    },
            ),
        )
    } else if typ == 6 {
        ValueModel::SByte(Seq::new(n, |i: int| d[o + i] as i8))
    } else if typ == 7 {
        ValueModel::Undefined(d.subrange(o, o + n), ofs)
    } else if typ == 8 {
        ValueModel::SShort(Seq::new(n, |i: int| spec_u16(d, le, o + 2 * i) as u16 as i16))
    } else if typ == 9 {
        ValueModel::SLong(Seq::new(n, |i: int| spec_u32(d, le, o + 4 * i) as u32 as i32))
    } else if typ == 10 {
        ValueModel::SRational(
            Seq::new(
                n,
                |i: int|
                    SRational {
                        num: spec_u32(d, le, o + 8 * i) as u32 as i32,
                        denom: spec_u32(d, le, o + 8 * i + 4) as u32 as i32,
                    },
            ),
        )
    } else {
        ValueModel::Unknown(typ, cnt, ofs)
    }
}

/// The model of a materialized deferred triple: decoded when the type
/// code has a registered width, left opaque otherwise.
pub open spec fn spec_materialize(d: Seq<u8>, le: bool, typ: u16, cnt: u32, ofs: u32) -> ValueModel {
    if spec_unit_len(typ as int) == 0 {
        ValueModel::Unknown(typ, cnt, ofs)
    } else {
        spec_decode(d, le, typ, cnt, ofs)
    }
}

/// Decode `cnt` units of a recognized type `typ` stored at `ofs`.
pub fn decode(d: &[u8], le: bool, typ: u16, cnt: u32, ofs: u32) -> (r: Value)
    requires
        spec_unit_len(typ as int) != 0,
        ofs + spec_unit_len(typ as int) * cnt <= d@.len(),
    ensures
        r@ == spec_decode(d@, le, typ, cnt, ofs),
{
    let n = cnt as usize;
    let o = ofs as usize;
    let dlen: usize = d.len();
    if typ == 1 {
        let mut v: Vec<u8> = Vec::new();
        for i in 0..n
            invariant
                dlen == d@.len(),
                o + n <= dlen,
                v@ =~= d@.subrange(o as int, o + i),
        {
            v.push(d[o + i]);
        }
        assert(v@ =~= d@.subrange(ofs as int, ofs + cnt as nat));
        Value::Byte(v)
    } else if typ == 3 {
        let mut v: Vec<u16> = Vec::new();
        for i in 0..n
            invariant
                dlen == d@.len(),
                o + 2 * n <= dlen,
                v@.len() == i,
                forall|j: int| 0 <= j < i ==> v@[j] as int == spec_u16(d@, le, o + 2 * j),
        {
            v.push(loadu16(d, o + 2 * i, le));
        }
        assert(v@ =~= Seq::new(cnt as nat, |i: int| spec_u16(d@, le, ofs + 2 * i) as u16));
        Value::Short(v)
    } else if typ == 4 {
        let mut v: Vec<u32> = Vec::new();
        for i in 0..n
            invariant
                dlen == d@.len(),
                o + 4 * n <= dlen,
                v@.len() == i,
                forall|j: int| 0 <= j < i ==> v@[j] as int == spec_u32(d@, le, o + 4 * j),
        {
            v.push(loadu32(d, o + 4 * i, le));
        }
        assert(v@ =~= Seq::new(cnt as nat, |i: int| spec_u32(d@, le, ofs + 4 * i) as u32));
        Value::Long(v)
    } else if typ == 5 {
        let mut v: Vec<Rational> = Vec::new();
        for i in 0..n
            invariant
                dlen == d@.len(),
                o + 8 * n <= dlen,
                v@.len() == i,
                forall|j: int| 0 <= j < i ==> (#[trigger] v@[j]).num as int == spec_u32(
                    d@,
                    le,
                    o + 8 * j,
                ) && v@[j].denom as int == spec_u32(d@, le, o + 8 * j + 4),
        {
            let num = loadu32(d, o + 8 * i, le);
            let denom = loadu32(d, o + 8 * i + 4, le);
            v.push(Rational { num, denom });
        }
        assert(v@ =~= Seq::new(
            cnt as nat,
            |i: int|
                Rational {
                    num: spec_u32(d@, le, ofs + 8 * i) as u32,
                    denom: spec_u32(d@, le, ofs + 8 * i + 4) as u32,
                },
        ));
        Value::Rational(v)
    } else if typ == 6 {
        let mut v: Vec<i8> = Vec::new();
        for i in 0..n
            invariant
                dlen == d@.len(),
                o + n <= dlen,
                v@.len() == i,
                forall|j: int| 0 <= j < i ==> v@[j] == d@[o + j] as i8,
        {
            v.push(#[verifier::truncate] (d[o + i] as i8));
        }
        assert(v@ =~= Seq::new(cnt as nat, |i: int| d@[ofs + i] as i8));
        Value::SByte(v)
    } else if typ == 7 {
        let mut v: Vec<u8> = Vec::new();
        for i in 0..n
            invariant
                dlen == d@.len(),
                o + n <= dlen,
                v@ =~= d@.subrange(o as int, o + i),
        {
            v.push(d[o + i]);
        }
        assert(v@ =~= d@.subrange(ofs as int, ofs + cnt as nat));
        Value::Undefined(v, ofs)
    } else if typ == 8 {
        let mut v: Vec<i16> = Vec::new();
        for i in 0..n
            invariant
                dlen == d@.len(),
                o + 2 * n <= dlen,
                v@.len() == i,
                forall|j: int| 0 <= j < i ==> v@[j] == spec_u16(d@, le, o + 2 * j) as u16 as i16,
        {
            v.push(#[verifier::truncate] (loadu16(d, o + 2 * i, le) as i16));
        }
        assert(v@ =~= Seq::new(cnt as nat, |i: int| spec_u16(d@, le, ofs + 2 * i) as u16 as i16));
        Value::SShort(v)
    } else if typ == 9 {
        let mut v: Vec<i32> = Vec::new();
        for i in 0..n
            invariant
                dlen == d@.len(),
                o + 4 * n <= dlen,
                v@.len() == i,
                forall|j: int| 0 <= j < i ==> v@[j] == spec_u32(d@, le, o + 4 * j) as u32 as i32,
        {
            v.push(#[verifier::truncate] (loadu32(d, o + 4 * i, le) as i32));
        }
        assert(v@ =~= Seq::new(cnt as nat, |i: int| spec_u32(d@, le, ofs + 4 * i) as u32 as i32));
        Value::SLong(v)
    } else {
        let mut v: Vec<SRational> = Vec::new();
        for i in 0..n
            invariant
                typ == 10,
                dlen == d@.len(),
                o + 8 * n <= dlen,
                v@.len() == i,
                forall|j: int| 0 <= j < i ==> (#[trigger] v@[j]).num == spec_u32(
                    d@,
                    le,
                    o + 8 * j,
                ) as u32 as i32 && v@[j].denom == spec_u32(d@, le, o + 8 * j + 4) as u32 as i32,
        {
            let num = #[verifier::truncate] (loadu32(d, o + 8 * i, le) as i32);
            let denom = #[verifier::truncate] (loadu32(d, o + 8 * i + 4, le) as i32);
            v.push(SRational { num, denom });
        }
        assert(v@ =~= Seq::new(
            cnt as nat,
            |i: int|
                SRational {
                    num: spec_u32(d@, le, ofs + 8 * i) as u32 as i32,
                    denom: spec_u32(d@, le, ofs + 8 * i + 4) as u32 as i32,
                },
        ));
        Value::SRational(v)
    }
}

/// What `get_uint` returns: the `i`-th element of an unsigned integer
/// payload, widened to 32 bits.
pub open spec fn spec_get_uint(v: ValueModel, i: int) -> Option<u32> {
    match v {
        ValueModel::Byte(s) => if 0 <= i < s.len() {
            Some(s[i] as u32)
        } else {
            None
        },
        ValueModel::Short(s) => if 0 <= i < s.len() {
            Some(s[i] as u32)
        } else {
            None
        },
        ValueModel::Long(s) => if 0 <= i < s.len() {
            Some(s[i])
        } else {
            None
        },
        _ => None,
    }
}

impl Value {
    /// Read the `i`-th element of an unsigned integer payload, if this
    /// value holds one.
    pub fn get_uint(&self, i: usize) -> (r: Option<u32>)
        ensures
            r == spec_get_uint(self@, i as int),
    {
        match self {
            Value::Byte(v) => if i < v.len() {
                Some(v[i] as u32)
            } else {
                None
            },
            Value::Short(v) => if i < v.len() {
                Some(v[i] as u32)
            } else {
                None
            },
            Value::Long(v) => if i < v.len() {
                Some(v[i])
            } else {
                None
            },
            _ => None,
        }
    }
}

} // verus!
