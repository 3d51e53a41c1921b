//! The IFD walker: parses the TIFF header, walks the bounded chain of
//! top-level directories, recurses exactly one level into Exif, GPS and
//! Interop sub-directories, and defers value decoding until a field is
//! materialized.
//!
//! The whole parse is specified by the recursive spec functions
//! `spec_parse`, `spec_chain`, `spec_ifd`, `spec_ifd_entries` and
//! `spec_child_ifd`; the executable parser is proved to return exactly
//! their outcome, in strict mode and in best-effort mode alike.

use vstd::prelude::*;
use crate::endian::{spec_u16, spec_u32, loadu16, loadu32};
use crate::error::Error;
use crate::strutil::{push_dec, spec_dec_digits};
use crate::value::{
    Value, ValueModel, Rational, SRational, spec_unit_len, unit_len, spec_materialize, spec_get_uint,
    decode,
};

verus! {

/// The logical namespace a tag's numeric code is interpreted within.
#[derive(Debug, Clone, Copy, PartialEq, Eq, Structural, Hash)]
pub enum Context {
    /// The top-level chain (primary image, thumbnail, further pages).
    Tiff,
    /// The Exif sub-directory.
    Exif,
    /// The GPS sub-directory.
    Gps,
    /// The interoperability sub-directory.
    Interop,
}

/// A tag: a context and a numeric code.
#[derive(Debug, Clone, Copy, PartialEq, Eq, Structural, Hash)]
pub struct Tag(pub Context, pub u16);

/// An IFD number.
///
/// The IFDs are indexed from 0.  The 0th IFD is for the primary image
/// and the 1st one is for the thumbnail.
#[derive(Debug, Clone, Copy, PartialEq, Eq, Structural, Hash)]
pub struct In(pub u16);

impl In {
    /// The index of the primary-image IFD.
    pub fn primary() -> (r: In)
        ensures
            r.0 == 0,
    {
        In(0)
    }

    /// The index of the thumbnail IFD.
    pub fn thumbnail() -> (r: In)
        ensures
            r.0 == 1,
    {
        In(1)
    }

    /// Returns the IFD number.
    pub fn index(self) -> (r: u16)
        ensures
            r == self.0,
    {
        self.0
    }

    /// The display rendering of this directory index.
    pub open spec fn spec_display(self) -> Seq<char> {
        if self.0 == 0 {
            "primary"@
        } else if self.0 == 1 {
            "thumbnail"@
        } else {
            "IFD"@ + spec_dec_digits(self.0 as int)
        }
    }

    /// Render this directory index: `primary`, `thumbnail`, or `IFDn`.
    pub fn display_string(self) -> (r: String)
        ensures
            r@ == self.spec_display(),
    {
        if self.0 == 0 {
            "primary".to_owned()
        } else if self.0 == 1 {
            "thumbnail".to_owned()
        } else {
            let mut s = "IFD".to_owned();
            push_dec(&mut s, self.0 as u32);
            s
        }
    }
}

/// A parsed field: a tag, the index of the directory it came from, and
/// its value.
#[derive(Debug, Clone, PartialEq, Eq)]
pub struct Field {
    /// The tag of this field.
    pub tag: Tag,
    /// The index of the IFD to which this field belongs.
    pub ifd_num: In,
    /// The value of this field.
    pub value: Value,
}

/// The mathematical model of a `Field`.
pub struct FieldModel {
    pub tag: Tag,
    pub ifd_num: In,
    pub value: ValueModel,
}

impl View for Field {
    type V = FieldModel;

    open spec fn view(&self) -> FieldModel {
        FieldModel { tag: self.tag, ifd_num: self.ifd_num, value: self.value@ }
    }
}

/// A deferred directory entry as the parser records it: the tag, the
/// directory index, and the undecoded (type, count, offset) triple.
pub struct SpecEntry {
    pub tag: Tag,
    pub ifd_num: In,
    pub typ: u16,
    pub cnt: u32,
    pub ofs: u32,
}

/// The outcome of scanning the entries of one directory: the deferred
/// fields collected, the faults logged in best-effort mode, and either
/// the offset of the next directory or the fault that aborted the scan.
pub struct IfdOut {
    pub fields: Seq<SpecEntry>,
    pub errs: Seq<Error>,
    pub next: Result<u32, Error>,
}

/// The outcome of a sub-directory parse or of the whole top-level chain.
pub struct WalkOut {
    pub fields: Seq<SpecEntry>,
    pub errs: Seq<Error>,
    pub res: Result<(), Error>,
}

/// The outcome of a whole parse: the byte order announced by the header
/// marker (when one was recognized), the deferred fields, the fault log
/// of best-effort mode, and the overall result.
pub struct ParseOut {
    pub le_marker: Option<bool>,
    pub fields: Seq<SpecEntry>,
    pub errs: Seq<Error>,
    pub res: Result<(), Error>,
}

/// Directories of the top-level context may hold sub-directory pointers;
/// child contexts may not, which bounds the recursion structurally.
pub open spec fn ctx_rank(ctx: Context) -> int {
    if ctx == Context::Tiff {
        1
    } else {
        0
    }
}

/// The child context denoted by a pointer tag, if `tag` is one of the
/// three pointer tags and the scan is in the top-level context.
pub open spec fn spec_child_context(ctx: Context, tag: int) -> Option<Context> {
    if ctx == Context::Tiff {
        if tag == 0x8769 {
            Some(Context::Exif)
        } else if tag == 0x8825 {
            Some(Context::Gps)
        } else if tag == 0xa005 {
            Some(Context::Interop)
        } else {
            None
        }
    } else {
        None
    }
}

/// Whether a deferred (type, count, offset) triple lies within `d`, so
/// that materializing it reads only in-bounds bytes.  A triple of an
/// unrecognized type is never decoded and so is always safe.
pub open spec fn spec_triple_in_bounds(d: Seq<u8>, typ: u16, cnt: u32, ofs: u32) -> bool {
    spec_unit_len(typ as int) != 0 ==> ofs + spec_unit_len(typ as int) * cnt <= d.len()
}

/// What one 12-byte entry at `pos` parses to: the tag code and the
/// deferred (type, count, offset) triple, or the fault.
///
/// A total value length of at most 4 bytes is stored inline: the offset
/// recorded is the position of the entry's own value slot (truncated to
/// 32 bits, as the on-disk descriptor holds a 32-bit offset).  A longer
/// value is reached through the offset stored in that slot, which must
/// be in bounds together with the computed length.
pub open spec fn spec_entry_at(d: Seq<u8>, le: bool, pos: int) -> Result<(u16, u16, u32, u32), Error>
    recommends
        0 <= pos,
        pos + 12 <= d.len(),
{
    let tag = spec_u16(d, le, pos) as u16;
    let typ = spec_u16(d, le, pos + 2) as u16;
    let cnt = spec_u32(d, le, pos + 4) as u32;
    let vallen = spec_unit_len(typ as int) * cnt;
    if vallen > usize::MAX {
        Err(Error::InvalidEntryCount)
    } else if vallen <= 4 {
        Ok((tag, typ, cnt, (pos + 8) as u32))
    } else {
        let ofs = spec_u32(d, le, pos + 8) as u32;
        if d.len() < ofs || d.len() - ofs < vallen {
            Err(Error::TruncatedFieldValue)
        } else {
            Ok((tag, typ, cnt, ofs))
        }
    }
}

/// The outcome of scanning entries `i..count` of a directory whose
/// `i`-th entry sits at `pos`, followed by the 4-byte next-directory
/// offset.
///
/// An entry-level fault aborts the scan in strict mode and is logged and
/// skipped in best-effort mode.  A sub-directory fault behaves the same,
/// except that fields the sub-directory collected before failing are
/// kept either way.  Too few bytes for an entry or for the trailing
/// offset abort the directory in both modes.
pub open spec fn spec_ifd_entries(
    d: Seq<u8>,
    le: bool,
    pos: int,
    count: int,
    i: int,
    ctx: Context,
    ifd_num: u16,
    lenient: bool,
) -> IfdOut
    decreases ctx_rank(ctx), count - i + 1, 0int,
{
    if i >= count {
        if pos + 4 > d.len() {
            IfdOut { fields: seq![], errs: seq![], next: Err(Error::TruncatedNextOffset) }
        } else {
            IfdOut { fields: seq![], errs: seq![], next: Ok(spec_u32(d, le, pos) as u32) }
        }
    } else if pos + 12 > d.len() {
        IfdOut { fields: seq![], errs: seq![], next: Err(Error::TruncatedIfd) }
    } else {
        match spec_entry_at(d, le, pos) {
            Err(e) => {
                if lenient {
                    let rest = spec_ifd_entries(d, le, pos + 12, count, i + 1, ctx, ifd_num, lenient);
                    IfdOut { fields: rest.fields, errs: seq![e] + rest.errs, next: rest.next }
                } else {
                    IfdOut { fields: seq![], errs: seq![], next: Err(e) }
                }
            },
            Ok((tag, typ, cnt, ofs)) => {
                match spec_child_context(ctx, tag as int) {
                    Some(cctx) => {
                        let ch = spec_child_ifd(d, le, typ, cnt, ofs, cctx, ifd_num, lenient);
                        match ch.res {
                            Ok(_) => {
                                let rest = spec_ifd_entries(
                                    d,
                                    le,
                                    pos + 12,
                                    count,
                                    i + 1,
                                    ctx,
                                    ifd_num,
                                    lenient,
                                );
                                IfdOut {
                                    fields: ch.fields + rest.fields,
                                    errs: ch.errs + rest.errs,
                                    next: rest.next,
                                }
                            },
                            Err(e) => {
                                if lenient {
                                    let rest = spec_ifd_entries(
                                        d,
                                        le,
                                        pos + 12,
                                        count,
                                        i + 1,
                                        ctx,
                                        ifd_num,
                                        lenient,
                                    );
                                    IfdOut {
                                        fields: ch.fields + rest.fields,
                                        errs: ch.errs + seq![e] + rest.errs,
                                        next: rest.next,
                                    }
                                } else {
                                    IfdOut { fields: ch.fields, errs: ch.errs, next: Err(e) }
                                }
                            },
                        }
                    },
                    None => {
                        let se = SpecEntry {
                            tag: Tag(ctx, tag),
                            ifd_num: In(ifd_num),
                            typ,
                            cnt,
                            ofs,
                        };
                        let rest = spec_ifd_entries(d, le, pos + 12, count, i + 1, ctx, ifd_num, lenient);
                        IfdOut {
                            fields: seq![se] + rest.fields,
                            errs: rest.errs,
                            next: rest.next,
                        }
                    },
                }
            },
        }
    }
}

/// The outcome of parsing one directory at `off`: its 16-bit entry
/// count must be readable, then its entries are scanned.
pub open spec fn spec_ifd(
    d: Seq<u8>,
    le: bool,
    off: int,
    ctx: Context,
    ifd_num: u16,
    lenient: bool,
) -> IfdOut
    decreases ctx_rank(ctx), 65538int, 0int,
{
    if off + 2 > d.len() {
        IfdOut { fields: seq![], errs: seq![], next: Err(Error::TruncatedIfdCount) }
    } else {
        spec_ifd_entries(d, le, off + 2, spec_u16(d, le, off), 0, ctx, ifd_num, lenient)
    }
}

/// The outcome of resolving a sub-directory pointer and parsing the one
/// directory it points to.
///
/// The pointer triple is materialized; its value must read as a single
/// unsigned integer.  The child directory must terminate its own chain:
/// a non-zero next-directory offset from a child is a structural fault.
pub open spec fn spec_child_ifd(
    d: Seq<u8>,
    le: bool,
    typ: u16,
    cnt: u32,
    ofs: u32,
    cctx: Context,
    ifd_num: u16,
    lenient: bool,
) -> WalkOut
    decreases ctx_rank(cctx) + 1, 0int, 0int,
{
    match spec_get_uint(spec_materialize(d, le, typ, cnt, ofs), 0) {
        None => WalkOut { fields: seq![], errs: seq![], res: Err(Error::InvalidPointer) },
        Some(p) => {
            let sub = spec_ifd(d, le, p as int, cctx, ifd_num, lenient);
            match sub.next {
                Err(e) => WalkOut { fields: sub.fields, errs: sub.errs, res: Err(e) },
                Ok(nx) => {
                    if nx == 0 {
                        WalkOut { fields: sub.fields, errs: sub.errs, res: Ok(()) }
                    } else {
                        WalkOut { fields: sub.fields, errs: sub.errs, res: Err(Error::UnexpectedNextIfd) }
                    }
                },
            }
        },
    }
}

/// The outcome of walking the top-level chain starting at `off` with
/// the next directory index `ifd_num`: an offset of zero ends the chain,
/// and reaching index 8 before it ends is a structural fault.
pub open spec fn spec_chain(d: Seq<u8>, le: bool, off: int, ifd_num: u16, lenient: bool) -> WalkOut
    decreases 8 - ifd_num,
{
    if off == 0 {
        WalkOut { fields: seq![], errs: seq![], res: Ok(()) }
    } else if ifd_num >= 8 {
        WalkOut { fields: seq![], errs: seq![], res: Err(Error::IfdCountLimit) }
    } else {
        let o = spec_ifd(d, le, off, Context::Tiff, ifd_num, lenient);
        match o.next {
            Err(e) => WalkOut { fields: o.fields, errs: o.errs, res: Err(e) },
            Ok(nx) => {
                let rest = spec_chain(d, le, nx as int, (ifd_num + 1) as u16, lenient);
                WalkOut {
                    fields: o.fields + rest.fields,
                    errs: o.errs + rest.errs,
                    res: rest.res,
                }
            },
        }
    }
}

/// The outcome of everything after the byte-order marker: the fixed
/// magic 42, then the chain.  In best-effort mode a chain-level fault is
/// moved to the log and the parse as a whole succeeds; the two header
/// faults abort in both modes, since no structure exists to resume from.
pub open spec fn spec_parse_rest(d: Seq<u8>, le: bool, lenient: bool) -> WalkOut
    recommends
        d.len() >= 8,
{
    if spec_u16(d, le, 2) != 42 {
        WalkOut { fields: seq![], errs: seq![], res: Err(Error::InvalidFortyTwo) }
    } else {
        let c = spec_chain(d, le, spec_u32(d, le, 4), 0, lenient);
        if lenient {
            match c.res {
                Err(e) => WalkOut { fields: c.fields, errs: c.errs + seq![e], res: Ok(()) },
                Ok(_) => c,
            }
        } else {
            c
        }
    }
}

/// The outcome of a whole parse of `d`: at least 8 bytes, one of the
/// two byte-order markers, then `spec_parse_rest`.
pub open spec fn spec_parse(d: Seq<u8>, lenient: bool) -> ParseOut {
    if d.len() < 8 {
        ParseOut { le_marker: None, fields: seq![], errs: seq![], res: Err(Error::TruncatedHeader) }
    } else {
        let m = spec_u16(d, false, 0);
        if m != 0x4d4d && m != 0x4949 {
            ParseOut {
                le_marker: None,
                fields: seq![],
                errs: seq![],
                res: Err(Error::InvalidByteOrder),
            }
        } else {
            let le = m == 0x4949;
            let w = spec_parse_rest(d, le, lenient);
            ParseOut { le_marker: Some(le), fields: w.fields, errs: w.errs, res: w.res }
        }
    }
}

/// The field a deferred entry materializes to against buffer `d`.
pub open spec fn spec_materialized_field(d: Seq<u8>, le: bool, se: SpecEntry) -> FieldModel {
    FieldModel {
        tag: se.tag,
        ifd_num: se.ifd_num,
        value: spec_materialize(d, le, se.typ, se.cnt, se.ofs),
    }
}

/// The deferred in-memory entry the parser records for a scanned field.
pub open spec fn mk_deferred(se: SpecEntry) -> IfdEntry {
    IfdEntry {
        field: Field {
            tag: se.tag,
            ifd_num: se.ifd_num,
            value: Value::Unknown(se.typ, se.cnt, se.ofs),
        },
        fixed: false,
    }
}

/// The deferred in-memory entries the parser records for a scanned
/// sequence of fields.
pub open spec fn deferred_entries(s: Seq<SpecEntry>) -> Seq<IfdEntry> {
    s.map_values(|se: SpecEntry| mk_deferred(se))
}

/// A partially parsed field: the tag and directory index are known, and
/// the value is either still the deferred triple or already materialized.
///
/// The single-assignment discipline: `fixed` is false until the one
/// materialization, which decodes the deferred triple and never runs
/// again; a read of a fixed entry touches no buffer.
#[derive(Debug)]
pub struct IfdEntry {
    /// The field; while `fixed` is false its value is the deferred
    /// `Value::Unknown` triple.
    pub field: Field,
    /// Whether the value has been materialized.
    pub fixed: bool,
}

impl IfdEntry {
    /// Whether materializing this entry against `d` reads only
    /// in-bounds bytes.  Holds trivially once the entry is fixed.
    pub open spec fn in_bounds(&self, d: Seq<u8>) -> bool {
        !self.fixed ==> match self.field.value {
            Value::Unknown(t, c, o) => spec_triple_in_bounds(d, t, c, o),
            _ => true,
        }
    }

    /// The value this entry's field holds after materialization against
    /// `d`: unchanged if already fixed, decoded otherwise.
    pub open spec fn spec_cell_value(&self, d: Seq<u8>, le: bool) -> ValueModel {
        if self.fixed {
            self.field.value@
        } else {
            match self.field.value {
                Value::Unknown(t, c, o) => spec_materialize(d, le, t, c, o),
                _ => self.field.value@,
            }
        }
    }

    /// The directory index and tag of this entry.
    pub fn ifd_num_tag(&self) -> (r: (In, Tag))
        ensures
            r == (self.field.ifd_num, self.field.tag),
    {
        (self.field.ifd_num, self.field.tag)
    }

    /// Materialize the deferred value, at most once: a no-op on a fixed
    /// entry.
    pub fn materialize(&mut self, data: &[u8], le: bool)
        requires
            old(self).in_bounds(data@),
        ensures
            final(self).fixed,
            final(self).field.tag == old(self).field.tag,
            final(self).field.ifd_num == old(self).field.ifd_num,
            final(self).field.value@ == old(self).spec_cell_value(data@, le),
            old(self).fixed ==> *final(self) == *old(self),
    {
        if self.fixed {
            return ;
        }
        let (t, c, o) = match &self.field.value {
            Value::Unknown(t, c, o) => (*t, *c, *o),
            _ => {
                self.fixed = true;
                return ;
            },
        };
        if unit_len(t) != 0 {
            self.field.value = decode(data, le, t, c, o);
        }
        self.fixed = true;
    }

    /// Materialize if still deferred, then hand out the field.
    ///
    /// Reading an already-fixed entry changes nothing and depends on no
    /// byte of `data`: repeated reads return bit-identical results.
    pub fn ref_field(&mut self, data: &[u8], le: bool) -> (f: &Field)
        requires
            old(self).in_bounds(data@),
        ensures
            final(self).fixed,
            *f == final(self).field,
            final(self).field.tag == old(self).field.tag,
            final(self).field.ifd_num == old(self).field.ifd_num,
            final(self).field.value@ == old(self).spec_cell_value(data@, le),
            old(self).fixed ==> *final(self) == *old(self),
    {
        self.materialize(data, le);
        &self.field
    }

    /// Materialize if still deferred, then yield the field by value.
    pub fn into_field(self, data: &[u8], le: bool) -> (f: Field)
        requires
            self.in_bounds(data@),
        ensures
            f.tag == self.field.tag,
            f.ifd_num == self.field.ifd_num,
            f.value@ == self.spec_cell_value(data@, le),
    {
        let mut e = self;
        e.materialize(data, le);
        e.field
    }
}


/// Map a tag code to the child context it points to, if any.
fn child_context(ctx: Context, tag: u16) -> (r: Option<Context>)
    ensures
        r == spec_child_context(ctx, tag as int),
{
    match ctx {
        Context::Tiff => {
            if tag == 0x8769 {
                Some(Context::Exif)
            } else if tag == 0x8825 {
                Some(Context::Gps)
            } else if tag == 0xa005 {
                Some(Context::Interop)
            } else {
                None
            }
        },
        _ => None,
    }
}

/// The parser: collects deferred entries, remembers the byte order, and
/// in best-effort mode logs faults instead of aborting on them.
#[derive(Debug)]
pub struct Parser {
    /// The deferred entries collected so far, in scan order.
    pub entries: Vec<IfdEntry>,
    /// True once the header selected the little-endian byte order.
    pub little_endian: bool,
    /// `Some` (with the fault log) selects best-effort mode; `None`
    /// selects strict mode.
    pub continue_on_error: Option<Vec<Error>>,
}

impl Parser {
    /// Whether this parser runs in best-effort mode.
    pub open spec fn lenient(&self) -> bool {
        match self.continue_on_error {
            Some(_) => true,
            None => false,
        }
    }

    /// The fault log collected so far; empty in strict mode.
    pub open spec fn spec_log(&self) -> Seq<Error> {
        match self.continue_on_error {
            Some(v) => v@,
            None => seq![],
        }
    }

    /// A fresh parser in strict mode.
    pub fn new() -> (r: Parser)
        ensures
            r.entries@ == Seq::<IfdEntry>::empty(),
            r.little_endian == false,
            r.continue_on_error is None,
    {
        Parser { entries: Vec::new(), little_endian: false, continue_on_error: None }
    }

    /// Route a fault through the error policy: strict mode propagates
    /// it, best-effort mode appends it to the log and goes on.
    fn check_error(&mut self, err: Error) -> (r: Result<(), Error>)
        ensures
            final(self).entries == old(self).entries,
            final(self).little_endian == old(self).little_endian,
            final(self).lenient() == old(self).lenient(),
            old(self).lenient() ==> r == Ok::<(), Error>(()) && final(self).spec_log()
                == old(self).spec_log() + seq![err],
            !old(self).lenient() ==> r == Err::<(), Error>(err) && *final(self) == *old(self),
    {
        match &mut self.continue_on_error {
            Some(v) => {
                v.push(err);
                Ok(())
            },
            None => Err(err),
        }
    }

    /// Parse one 12-byte entry at `pos` into its tag code and deferred
    /// triple, exactly as `spec_entry_at` states.
    fn parse_entry_raw(data: &[u8], pos: usize, le: bool) -> (r: Result<(u16, u16, u32, u32), Error>)
        requires
            pos + 12 <= data@.len(),
        ensures
            ({
                let s = spec_entry_at(data@, le, pos as int);
                match (r, s) {
                    (Ok(x), Ok(y)) => x == y && spec_triple_in_bounds(data@, x.1, x.2, x.3),
                    (Err(e), Err(se)) => e == se,
                    _ => false,
                }
            }),
    {
        let dlen: usize = data.len();
        let tag = loadu16(data, pos, le);
        let typ = loadu16(data, pos + 2, le);
        let cnt = loadu32(data, pos + 4, le);
        let valofs_at = pos + 8;
        let ul = unit_len(typ);
        let vallen = match ul.checked_mul(cnt as usize) {
            None => {
                return Err(Error::InvalidEntryCount);
            },
            Some(v) => v,
        };
        if vallen <= 4 {
            Ok((tag, typ, cnt, #[verifier::truncate] (valofs_at as u32)))
        } else {
            let ofs = loadu32(data, valofs_at, le);
            let ofs_us = ofs as usize;
            if dlen < ofs_us || dlen - ofs_us < vallen {
                Err(Error::TruncatedFieldValue)
            } else {
                Ok((tag, typ, cnt, ofs))
            }
        }
    }

    /// Parse one 12-byte entry at `offset`, handing the deferred triple
    /// back as an opaque `Value::Unknown`.
    pub fn parse_ifd_entry(data: &[u8], offset: usize, le: bool) -> (r: Result<(u16, Value), Error>)
        requires
            offset + 12 <= data@.len(),
        ensures
            ({
                let s = spec_entry_at(data@, le, offset as int);
                match (r, s) {
                    (Ok(v), Ok(y)) => v.0 == y.0 && v.1 == Value::Unknown(y.1, y.2, y.3),
                    (Err(e), Err(se)) => e == se,
                    _ => false,
                }
            }),
    {
        match Self::parse_entry_raw(data, offset, le) {
            Ok((tag, typ, cnt, ofs)) => Ok((tag, Value::Unknown(typ, cnt, ofs))),
            Err(e) => Err(e),
        }
    }

    /// Parse the directory at `offset` under `ctx` as directory number
    /// `ifd_num`, appending its deferred fields to `self.entries`, and
    /// return the offset of the next directory.
    ///
    /// The outcome is exactly `spec_ifd` of the parser's byte order and
    /// mode; every appended triple is in bounds of `data`.
    #[verifier::rlimit(100)]
    fn parse_ifd(&mut self, data: &[u8], offset: usize, ctx: Context, ifd_num: u16) -> (r: Result<
        usize,
        Error,
    >)
        ensures
            ({
                let o = spec_ifd(
                    data@,
                    old(self).little_endian,
                    offset as int,
                    ctx,
                    ifd_num,
                    old(self).lenient(),
                );
                &&& final(self).little_endian == old(self).little_endian
                &&& final(self).lenient() == old(self).lenient()
                &&& final(self).entries@ == old(self).entries@ + deferred_entries(o.fields)
                &&& old(self).lenient() ==> final(self).spec_log() == old(self).spec_log() + o.errs
                &&& !old(self).lenient() ==> final(self).continue_on_error is None
                &&& match (r, o.next) {
                    (Ok(n), Ok(sn)) => n == sn as usize && sn == n as u32,
                    (Err(e), Err(se)) => e == se,
                    _ => false,
                }
                &&& fields_in_bounds(o.fields, data@)
            }),
        decreases ctx_rank(ctx), 1int,
    {
        let ghost d = data@;
        let le = self.little_endian;
        let ghost lm = self.lenient();
        let dlen: usize = data.len();
        if dlen < offset || dlen - offset < 2 {
            proof {
                let o = spec_ifd(d, le, offset as int, ctx, ifd_num, lm);
                assert(deferred_entries(o.fields) =~= Seq::<IfdEntry>::empty());
                lemma_seq_empty(self.entries@);
                lemma_seq_empty(self.spec_log());
            }
            return Err(Error::TruncatedIfdCount);
        }
        let count = loadu16(data, offset, le) as usize;
        let mut pos = offset + 2;
        let ghost entries0 = self.entries@;
        let ghost log0 = self.spec_log();
        let ghost mut donef: Seq<SpecEntry> = seq![];
        let ghost mut donee: Seq<Error> = seq![];
        let ghost full = spec_ifd(d, le, offset as int, ctx, ifd_num, lm);
        proof {
            assert(full == spec_ifd_entries(
                d,
                le,
                offset + 2int,
                count as int,
                0,
                ctx,
                ifd_num,
                lm,
            ));
            assert(deferred_entries(donef) =~= Seq::<IfdEntry>::empty());
            lemma_seq_empty(self.entries@);
            lemma_seq_empty(full.fields);
            lemma_seq_empty(full.errs);
            lemma_seq_empty(self.spec_log());
        }

        let mut i: usize = 0;
        while i < count
            invariant
                data@ == d,
                dlen == d.len(),
                count < 65536,
                i <= count,
                pos == offset + 2 + 12 * i,
                pos <= dlen,
                le == old(self).little_endian,
                lm == old(self).lenient(),
                entries0 == old(self).entries@,
                log0 == old(self).spec_log(),
                full == spec_ifd(d, le, offset as int, ctx, ifd_num, lm),
                full.fields == donef + spec_ifd_entries(
                    d,
                    le,
                    pos as int,
                    count as int,
                    i as int,
                    ctx,
                    ifd_num,
                    lm,
                ).fields,
                self.little_endian == le,
                self.lenient() == lm,
                !lm ==> self.continue_on_error is None,
                self.entries@ == entries0 + deferred_entries(donef),
                lm ==> self.spec_log() == log0 + donee,
                ({
                    let rest = spec_ifd_entries(d, le, pos as int, count as int, i as int, ctx, ifd_num, lm);
                    &&& full.fields == donef + rest.fields
                    &&& full.errs == donee + rest.errs
                    &&& full.next == rest.next
                }),
                fields_in_bounds(donef, d),
            decreases count - i,
        {
            let ghost rest_i = spec_ifd_entries(d, le, pos as int, count as int, i as int, ctx, ifd_num, lm);
            let ghost rest1 = spec_ifd_entries(
                d,
                le,
                pos + 12int,
                count as int,
                i + 1int,
                ctx,
                ifd_num,
                lm,
            );
            if dlen - pos < 12 {
                proof {
                    lemma_step_trunc(d, le, pos as int, count as int, i as int, ctx, ifd_num, lm);
                    lemma_seq_empty(donef);
                    lemma_seq_empty(donee);
                }
                return Err(Error::TruncatedIfd);
            }
            match Self::parse_entry_raw(data, pos, le) {
                Err(e) => {
                    proof {
                        lemma_step_entry_err(d, le, pos as int, count as int, i as int, ctx, ifd_num, lm, e);
                    }
                    match self.check_error(e) {
                        Err(e2) => {
                            proof {
                                lemma_seq_empty(donef);
                                lemma_seq_empty(donee);
                            }
                            return Err(e2);
                        },
                        Ok(_) => {
                            proof {
                                lemma_seq_assoc(donee, seq![e], rest1.errs);
                                donee = donee + seq![e];
                            }
                        },
                    }
                },
                Ok((tag, typ, cnt, ofs)) => {
                    match child_context(ctx, tag) {
                        Some(cctx) => {
                            let ghost ch = spec_child_ifd(d, le, typ, cnt, ofs, cctx, ifd_num, lm);
                            proof {
                                lemma_step_child(d, le, pos as int, count as int, i as int, ctx, ifd_num, lm, tag, typ, cnt, ofs, cctx);
                            }
                            let cres = self.parse_child_ifd(data, typ, cnt, ofs, cctx, ifd_num);
                            proof {
                                lemma_map_concat(donef, ch.fields);
                                lemma_seq_assoc(entries0, deferred_entries(donef), deferred_entries(ch.fields));
                                lemma_in_bounds_concat(donef, ch.fields, d);
                            }
                            match cres {
                                Ok(_) => {
                                    proof {
                                        lemma_seq_assoc(donef, ch.fields, rest1.fields);
                                        lemma_seq_assoc(donee, ch.errs, rest1.errs);
                                        donef = donef + ch.fields;
                                        donee = donee + ch.errs;
                                    }
                                },
                                Err(e) => {
                                    match self.check_error(e) {
                                        Err(e2) => {
                                            return Err(e2);
                                        },
                                        Ok(_) => {
                                            proof {
                                                lemma_seq_assoc(donef, ch.fields, rest1.fields);
                                                lemma_seq_assoc(donee, ch.errs + seq![e], rest1.errs);
                                                donef = donef + ch.fields;
                                                donee = donee + (ch.errs + seq![e]);
                                            }
                                        },
                                    }
                                },
                            }
                        },
                        None => {
                            let ghost se = SpecEntry {
                                tag: Tag(ctx, tag),
                                ifd_num: In(ifd_num),
                                typ,
                                cnt,
                                ofs,
                            };
                            let ghost epre = self.entries@;
                            self.entries.push(
                                IfdEntry {
                                    field: Field {
                                        tag: Tag(ctx, tag),
                                        ifd_num: In(ifd_num),
                                        value: Value::Unknown(typ, cnt, ofs),
                                    },
                                    fixed: false,
                                },
                            );
                            proof {
                                lemma_step_field(d, le, pos as int, count as int, i as int, ctx, ifd_num, lm, tag, typ, cnt, ofs);
                                lemma_seq_assoc(donef, seq![se], rest1.fields);
                                lemma_map_concat(donef, seq![se]);
                                assert(deferred_entries(seq![se]) =~= seq![mk_deferred(se)]);
                                lemma_seq_assoc(entries0, deferred_entries(donef), seq![
                                    mk_deferred(se),
                                ]);
                                assert(self.entries@ =~= epre + seq![mk_deferred(se)]);
                                lemma_in_bounds_concat(donef, seq![se], d);
                                donef = donef + seq![se];
                            }
                        },
                    }
                },
            }
            pos = pos + 12;
            i = i + 1;
        }
        proof {
            lemma_entries_done(d, le, pos as int, count as int, i as int, ctx, ifd_num, lm);
            lemma_seq_empty(donef);
            lemma_seq_empty(donee);
        }
        if dlen - pos < 4 {
            return Err(Error::TruncatedNextOffset);
        }
        let next = loadu32(data, pos, le);
        Ok(next as usize)
    }


    /// Resolve a sub-directory pointer triple and parse the single
    /// directory it points to, exactly as `spec_child_ifd` states.
    fn parse_child_ifd(
        &mut self,
        data: &[u8],
        typ: u16,
        cnt: u32,
        ofs: u32,
        cctx: Context,
        ifd_num: u16,
    ) -> (r: Result<(), Error>)
        requires
            spec_triple_in_bounds(data@, typ, cnt, ofs),
            cctx != Context::Tiff,
        ensures
            ({
                let ch = spec_child_ifd(
                    data@,
                    old(self).little_endian,
                    typ,
                    cnt,
                    ofs,
                    cctx,
                    ifd_num,
                    old(self).lenient(),
                );
                &&& final(self).little_endian == old(self).little_endian
                &&& final(self).lenient() == old(self).lenient()
                &&& final(self).entries@ == old(self).entries@ + deferred_entries(ch.fields)
                &&& old(self).lenient() ==> final(self).spec_log() == old(self).spec_log() + ch.errs
                &&& !old(self).lenient() ==> final(self).continue_on_error is None
                &&& match (r, ch.res) {
                    (Ok(_), Ok(_)) => true,
                    (Err(e), Err(se)) => e == se,
                    _ => false,
                }
                &&& fields_in_bounds(ch.fields, data@)
            }),
        decreases ctx_rank(cctx), 2int,
    {
        let le = self.little_endian;
        let pv = if unit_len(typ) != 0 {
            decode(data, le, typ, cnt, ofs)
        } else {
            Value::Unknown(typ, cnt, ofs)
        };
        proof {
            assert(pv@ == spec_materialize(data@, le, typ, cnt, ofs));
        }
        match pv.get_uint(0) {
            None => Err(Error::InvalidPointer),
            Some(p) => {
                match self.parse_ifd(data, p as usize, cctx, ifd_num) {
                    Err(e) => Err(e),
                    Ok(next) => {
                        if next == 0 {
                            Ok(())
                        } else {
                            Err(Error::UnexpectedNextIfd)
                        }
                    },
                }
            },
        }
    }

    /// Walk the top-level chain starting at `first_offset`, exactly as
    /// `spec_chain` states.
    #[verifier::rlimit(100)]
    fn parse_body(&mut self, data: &[u8], first_offset: usize) -> (r: Result<(), Error>)
        ensures
            ({
                let c = spec_chain(
                    data@,
                    old(self).little_endian,
                    first_offset as int,
                    0,
                    old(self).lenient(),
                );
                &&& final(self).little_endian == old(self).little_endian
                &&& final(self).lenient() == old(self).lenient()
                &&& final(self).entries@ == old(self).entries@ + deferred_entries(c.fields)
                &&& old(self).lenient() ==> final(self).spec_log() == old(self).spec_log() + c.errs
                &&& !old(self).lenient() ==> final(self).continue_on_error is None
                &&& match (r, c.res) {
                    (Ok(_), Ok(_)) => true,
                    (Err(e), Err(se)) => e == se,
                    _ => false,
                }
                &&& fields_in_bounds(c.fields, data@)
            }),
    {
        let ghost d = data@;
        let le = self.little_endian;
        let ghost lm = self.lenient();
        let mut ifd_offset = first_offset;
        let mut ifd_num: u16 = 0;
        let ghost entries0 = self.entries@;
        let ghost log0 = self.spec_log();
        let ghost mut donef: Seq<SpecEntry> = seq![];
        let ghost mut donee: Seq<Error> = seq![];
        let ghost full = spec_chain(d, le, first_offset as int, 0, lm);
        proof {
            assert(deferred_entries(donef) =~= Seq::<IfdEntry>::empty());
            lemma_seq_empty(self.entries@);
            lemma_seq_empty(full.fields);
            lemma_seq_empty(full.errs);
            lemma_seq_empty(self.spec_log());
        }
        while ifd_offset != 0
            invariant
                data@ == d,
                ifd_num <= 8,
                le == old(self).little_endian,
                lm == old(self).lenient(),
                entries0 == old(self).entries@,
                log0 == old(self).spec_log(),
                full == spec_chain(d, le, first_offset as int, 0, lm),
                self.little_endian == le,
                self.lenient() == lm,
                !lm ==> self.continue_on_error is None,
                self.entries@ == entries0 + deferred_entries(donef),
                lm ==> self.spec_log() == log0 + donee,
                ({
                    let rest = spec_chain(d, le, ifd_offset as int, ifd_num, lm);
                    &&& full.fields == donef + rest.fields
                    &&& full.errs == donee + rest.errs
                    &&& full.res == rest.res
                }),
                fields_in_bounds(donef, d),
            decreases 8 - ifd_num,
        {
            if ifd_num >= 8 {
                proof {
                    lemma_seq_empty(donef);
                    lemma_seq_empty(donee);
                }
                return Err(Error::IfdCountLimit);
            }
            let ghost o = spec_ifd(d, le, ifd_offset as int, Context::Tiff, ifd_num, lm);
            proof {
                lemma_chain_step(d, le, ifd_offset as int, ifd_num, lm);
            }
            match self.parse_ifd(data, ifd_offset, Context::Tiff, ifd_num) {
                Err(e) => {
                    proof {
                        lemma_map_concat(donef, o.fields);
                        lemma_seq_assoc(entries0, deferred_entries(donef), deferred_entries(o.fields));
                        lemma_in_bounds_concat(donef, o.fields, d);
                    }
                    return Err(e);
                },
                Ok(next) => {
                    proof {
                        let rest2 = spec_chain(d, le, next as int, (ifd_num + 1) as u16, lm);
                        lemma_seq_assoc(donef, o.fields, rest2.fields);
                        lemma_seq_assoc(donee, o.errs, rest2.errs);
                        lemma_map_concat(donef, o.fields);
                        lemma_seq_assoc(entries0, deferred_entries(donef), deferred_entries(o.fields));
                        lemma_in_bounds_concat(donef, o.fields, d);
                        donef = donef + o.fields;
                        donee = donee + o.errs;
                    }
                    ifd_offset = next;
                    ifd_num = ifd_num + 1;
                },
            }
        }
        proof {
            lemma_seq_empty(donef);
            lemma_seq_empty(donee);
        }
        Ok(())
    }


    /// Check the fixed magic 42 and walk the chain, exactly as
    /// `spec_parse_rest` states for the already-selected byte order.
    fn parse_header(&mut self, data: &[u8]) -> (r: Result<(), Error>)
        requires
            data@.len() >= 8,
        ensures
            ({
                let w = spec_parse_rest(data@, old(self).little_endian, old(self).lenient());
                &&& final(self).little_endian == old(self).little_endian
                &&& final(self).lenient() == old(self).lenient()
                &&& final(self).entries@ == old(self).entries@ + deferred_entries(w.fields)
                &&& old(self).lenient() ==> final(self).spec_log() == old(self).spec_log() + w.errs
                &&& !old(self).lenient() ==> final(self).continue_on_error is None
                &&& match (r, w.res) {
                    (Ok(_), Ok(_)) => true,
                    (Err(e), Err(se)) => e == se,
                    _ => false,
                }
                &&& fields_in_bounds(w.fields, data@)
            }),
    {
        if loadu16(data, 2, self.little_endian) != 42 {
            return Err(Error::InvalidFortyTwo);
        }
        let ifd_offset = loadu32(data, 4, self.little_endian) as usize;
        match self.parse_body(data, ifd_offset) {
            Ok(_) => Ok(()),
            Err(e) => self.check_error(e),
        }
    }

    /// Parse a whole TIFF stream: select the byte order from the marker
    /// and parse the rest, exactly as `spec_parse` states.
    pub fn parse(&mut self, data: &[u8]) -> (r: Result<(), Error>)
        ensures
            ({
                let s = spec_parse(data@, old(self).lenient());
                &&& final(self).lenient() == old(self).lenient()
                &&& final(self).entries@ == old(self).entries@ + deferred_entries(s.fields)
                &&& old(self).lenient() ==> final(self).spec_log() == old(self).spec_log() + s.errs
                &&& !old(self).lenient() ==> final(self).continue_on_error is None
                &&& match s.le_marker {
                    Some(b) => final(self).little_endian == b,
                    None => final(self).little_endian == old(self).little_endian,
                }
                &&& match (r, s.res) {
                    (Ok(_), Ok(_)) => true,
                    (Err(e), Err(se)) => e == se,
                    _ => false,
                }
                &&& fields_in_bounds(s.fields, data@)
            }),
    {
        let dlen: usize = data.len();
        if dlen < 8 {
            return Err(Error::TruncatedHeader);
        }
        let marker = loadu16(data, 0, false);
        if marker == 0x4d4d {
            self.little_endian = false;
            self.parse_header(data)
        } else if marker == 0x4949 {
            self.little_endian = true;
            self.parse_header(data)
        } else {
            Err(Error::InvalidByteOrder)
        }
    }
}

/// All triples of a field sequence lie within `d`.
pub open spec fn fields_in_bounds(s: Seq<SpecEntry>, d: Seq<u8>) -> bool {
    forall|k: int|
        0 <= k < s.len() ==> spec_triple_in_bounds(d, (#[trigger] s[k]).typ, s[k].cnt, s[k].ofs)
}

/// In-bounds triples are preserved by concatenation.
proof fn lemma_in_bounds_concat(a: Seq<SpecEntry>, b: Seq<SpecEntry>, d: Seq<u8>)
    requires
        fields_in_bounds(a, d),
        fields_in_bounds(b, d),
    ensures
        fields_in_bounds(a + b, d),
{
    assert forall|k: int| 0 <= k < (a + b).len() implies spec_triple_in_bounds(
        d,
        (#[trigger] (a + b)[k]).typ,
        (a + b)[k].cnt,
        (a + b)[k].ofs,
    ) by {
        if k < a.len() {
            assert((a + b)[k] == a[k]);
        } else {
            assert((a + b)[k] == b[k - a.len()]);
        }
    }
}

/// Unfolding of `spec_ifd_entries` when too few bytes remain for the
/// `i`-th entry.
proof fn lemma_step_trunc(
    d: Seq<u8>,
    le: bool,
    pos: int,
    count: int,
    i: int,
    ctx: Context,
    ifd_num: u16,
    lm: bool,
)
    requires
        0 <= i < count,
        pos + 12 > d.len(),
    ensures
        ({
            let cur = spec_ifd_entries(d, le, pos, count, i, ctx, ifd_num, lm);
            &&& cur.fields == Seq::<SpecEntry>::empty()
            &&& cur.errs == Seq::<Error>::empty()
            &&& cur.next == Err::<u32, Error>(Error::TruncatedIfd)
        }),
{
    assert(spec_ifd_entries(d, le, pos, count, i, ctx, ifd_num, lm).fields =~= Seq::<
        SpecEntry,
    >::empty());
    assert(spec_ifd_entries(d, le, pos, count, i, ctx, ifd_num, lm).errs =~= Seq::<Error>::empty());
}

/// Unfolding of `spec_ifd_entries` when the `i`-th entry itself fails
/// to parse.
proof fn lemma_step_entry_err(
    d: Seq<u8>,
    le: bool,
    pos: int,
    count: int,
    i: int,
    ctx: Context,
    ifd_num: u16,
    lm: bool,
    e: Error,
)
    requires
        0 <= i < count,
        pos + 12 <= d.len(),
        spec_entry_at(d, le, pos) == Err::<(u16, u16, u32, u32), Error>(e),
    ensures
        ({
            let cur = spec_ifd_entries(d, le, pos, count, i, ctx, ifd_num, lm);
            let rest = spec_ifd_entries(d, le, pos + 12, count, i + 1, ctx, ifd_num, lm);
            if lm {
                &&& cur.fields == rest.fields
                &&& cur.errs == seq![e] + rest.errs
                &&& cur.next == rest.next
            } else {
                &&& cur.fields == Seq::<SpecEntry>::empty()
                &&& cur.errs == Seq::<Error>::empty()
                &&& cur.next == Err::<u32, Error>(e)
            }
        }),
{
}

/// Unfolding of `spec_ifd_entries` at an ordinary (non-pointer) entry.
proof fn lemma_step_field(
    d: Seq<u8>,
    le: bool,
    pos: int,
    count: int,
    i: int,
    ctx: Context,
    ifd_num: u16,
    lm: bool,
    tag: u16,
    typ: u16,
    cnt: u32,
    ofs: u32,
)
    requires
        0 <= i < count,
        pos + 12 <= d.len(),
        spec_entry_at(d, le, pos) == Ok::<(u16, u16, u32, u32), Error>((tag, typ, cnt, ofs)),
        spec_child_context(ctx, tag as int) is None,
    ensures
        ({
            let cur = spec_ifd_entries(d, le, pos, count, i, ctx, ifd_num, lm);
            let rest = spec_ifd_entries(d, le, pos + 12, count, i + 1, ctx, ifd_num, lm);
            let se = SpecEntry { tag: Tag(ctx, tag), ifd_num: In(ifd_num), typ, cnt, ofs };
            &&& cur.fields == seq![se] + rest.fields
            &&& cur.errs == rest.errs
            &&& cur.next == rest.next
        }),
{
}

/// Unfolding of `spec_ifd_entries` at a sub-directory pointer entry.
proof fn lemma_step_child(
    d: Seq<u8>,
    le: bool,
    pos: int,
    count: int,
    i: int,
    ctx: Context,
    ifd_num: u16,
    lm: bool,
    tag: u16,
    typ: u16,
    cnt: u32,
    ofs: u32,
    cctx: Context,
)
    requires
        0 <= i < count,
        pos + 12 <= d.len(),
        spec_entry_at(d, le, pos) == Ok::<(u16, u16, u32, u32), Error>((tag, typ, cnt, ofs)),
        spec_child_context(ctx, tag as int) == Some(cctx),
    ensures
        ({
            let cur = spec_ifd_entries(d, le, pos, count, i, ctx, ifd_num, lm);
            let rest = spec_ifd_entries(d, le, pos + 12, count, i + 1, ctx, ifd_num, lm);
            let ch = spec_child_ifd(d, le, typ, cnt, ofs, cctx, ifd_num, lm);
            match ch.res {
                Ok(_) => {
                    &&& cur.fields == ch.fields + rest.fields
                    &&& cur.errs == ch.errs + rest.errs
                    &&& cur.next == rest.next
                },
                Err(e) => {
                    if lm {
                        &&& cur.fields == ch.fields + rest.fields
                        &&& cur.errs == (ch.errs + seq![e]) + rest.errs
                        &&& cur.next == rest.next
                    } else {
                        &&& cur.fields == ch.fields
                        &&& cur.errs == ch.errs
                        &&& cur.next == Err::<u32, Error>(e)
                    }
                },
            }
        }),
{
}

/// Unfolding of `spec_ifd_entries` once all entries are scanned: only
/// the next-directory offset remains.
proof fn lemma_entries_done(
    d: Seq<u8>,
    le: bool,
    pos: int,
    count: int,
    i: int,
    ctx: Context,
    ifd_num: u16,
    lm: bool,
)
    requires
        i >= count,
    ensures
        ({
            let cur = spec_ifd_entries(d, le, pos, count, i, ctx, ifd_num, lm);
            &&& cur.fields == Seq::<SpecEntry>::empty()
            &&& cur.errs == Seq::<Error>::empty()
            &&& cur.next == if pos + 4 > d.len() {
                Err::<u32, Error>(Error::TruncatedNextOffset)
            } else {
                Ok::<u32, Error>(spec_u32(d, le, pos) as u32)
            }
        }),
{
    assert(spec_ifd_entries(d, le, pos, count, i, ctx, ifd_num, lm).fields =~= Seq::<
        SpecEntry,
    >::empty());
    assert(spec_ifd_entries(d, le, pos, count, i, ctx, ifd_num, lm).errs =~= Seq::<Error>::empty());
}

/// Unfolding of `spec_chain` at a live directory below the cap.
proof fn lemma_chain_step(d: Seq<u8>, le: bool, off: int, ifd_num: u16, lm: bool)
    requires
        off != 0,
        ifd_num < 8,
    ensures
        ({
            let cur = spec_chain(d, le, off, ifd_num, lm);
            let o = spec_ifd(d, le, off, Context::Tiff, ifd_num, lm);
            match o.next {
                Err(e) => {
                    &&& cur.fields == o.fields
                    &&& cur.errs == o.errs
                    &&& cur.res == Err::<(), Error>(e)
                },
                Ok(nx) => {
                    let rest = spec_chain(d, le, nx as int, (ifd_num + 1) as u16, lm);
                    &&& cur.fields == o.fields + rest.fields
                    &&& cur.errs == o.errs + rest.errs
                    &&& cur.res == rest.res
                },
            }
        }),
{
}

/// Concatenation of sequences is associative.
proof fn lemma_seq_assoc<T>(a: Seq<T>, b: Seq<T>, c: Seq<T>)
    ensures
        (a + b) + c == a + (b + c),
{
    assert((a + b) + c =~= a + (b + c));
}

/// The empty sequence is a unit of concatenation.
proof fn lemma_seq_empty<T>(a: Seq<T>)
    ensures
        a + Seq::<T>::empty() == a,
        Seq::<T>::empty() + a == a,
{
    assert(a + Seq::<T>::empty() =~= a);
    assert(Seq::<T>::empty() + a =~= a);
}

/// Recording deferred entries distributes over concatenation.
proof fn lemma_map_concat(a: Seq<SpecEntry>, b: Seq<SpecEntry>)
    ensures
        deferred_entries(a + b) == deferred_entries(a) + deferred_entries(b),
{
    assert(deferred_entries(a + b) =~= deferred_entries(a) + deferred_entries(b));
}

/// Whether `buf` starts with one of the two TIFF signatures.
pub open spec fn spec_is_tiff(b: Seq<u8>) -> bool {
    b.len() >= 4 && ((b[0] == 0x4d && b[1] == 0x4d && b[2] == 0x00 && b[3] == 0x2a) || (b[0] == 0x49
        && b[1] == 0x49 && b[2] == 0x2a && b[3] == 0x00))
}

/// Does the buffer start with a TIFF signature (either byte order)?
pub fn is_tiff(buf: &[u8]) -> (r: bool)
    ensures
        r == spec_is_tiff(buf@),
{
    if buf.len() < 4 {
        return false;
    }
    (buf[0] == 0x4d && buf[1] == 0x4d && buf[2] == 0x00 && buf[3] == 0x2a) || (buf[0] == 0x49
        && buf[1] == 0x49 && buf[2] == 0x2a && buf[3] == 0x00)
}

/// Parse the Exif attributes in the TIFF format, strictly: the first
/// structural fault aborts the parse.
///
/// On success the returned fields are exactly the materialized fields
/// that `spec_parse` collects, in scan order, and the flag is true when
/// the stream is little-endian.  On failure the returned error is
/// exactly the fault `spec_parse` finds.
pub fn parse_exif(data: &[u8]) -> (r: Result<(Vec<Field>, bool), Error>)
    ensures
        ({
            let s = spec_parse(data@, false);
            match r {
                Ok(p) => {
                    &&& s.res is Ok
                    &&& s.le_marker == Some(p.1)
                    &&& p.0@.len() == s.fields.len()
                    &&& forall|k: int|
                        0 <= k < s.fields.len() ==> (#[trigger] p.0@[k])@ == spec_materialized_field(
                            data@,
                            p.1,
                            s.fields[k],
                        )
                },
                Err(e) => s.res == Err::<(), Error>(e),
            }
        }),
{
    let ghost s = spec_parse(data@, false);
    let mut parser = Parser::new();
    match parser.parse(data) {
        Err(e) => {
            return Err(e);
        },
        Ok(_) => {},
    }
    let le = parser.little_endian;
    let mut fields: Vec<Field> = Vec::new();
    let ghost n = s.fields.len();
    let ghost m = deferred_entries(s.fields);
    proof {
        assert(parser.entries@ =~= m);
        assert(m.skip(0) =~= m);
    }
    while parser.entries.len() > 0
        invariant
            n == s.fields.len(),
            m == deferred_entries(s.fields),
            fields@.len() + parser.entries@.len() == n,
            parser.entries@ == m.skip(fields@.len() as int),
            forall|k: int|
                0 <= k < fields@.len() ==> (#[trigger] fields@[k])@ == spec_materialized_field(
                    data@,
                    le,
                    s.fields[k],
                ),
            fields_in_bounds(s.fields, data@),
        decreases parser.entries@.len(),
    {
        let ghost done = fields@.len() as int;
        let ghost pre = parser.entries@;
        let e = parser.entries.remove(0);
        proof {
            assert(pre[0] == m.skip(done)[0]);
            assert(m.skip(done)[0] == m[done + 0]);
            assert(m[done] == mk_deferred(s.fields[done]));
            assert(e == mk_deferred(s.fields[done]));
            assert forall|j: int| 0 <= j < parser.entries@.len() implies parser.entries@[j]
                == m.skip(done + 1)[j] by {
                assert(parser.entries@[j] == pre[j + 1]);
                assert(pre[j + 1] == m.skip(done)[j + 1]);
                assert(m.skip(done)[j + 1] == m[done + (j + 1)]);
                assert(m.skip(done + 1)[j] == m[done + 1 + j]);
            }
            assert(parser.entries@ =~= m.skip(done + 1));
        }
        let f = e.into_field(data, le);
        fields.push(f);
        proof {
            assert(fields@[done]@ == spec_materialized_field(data@, le, s.fields[done]));
        }
    }
    Ok((fields, le))
}


/// Signature gate law: a buffer shorter than the fixed header, or one
/// whose first two bytes are neither byte-order marker, fails with the
/// corresponding malformed-container fault and never proceeds: no field
/// is collected and nothing is logged, in strict and best-effort mode
/// alike.
pub proof fn lemma_signature_gate(d: Seq<u8>, lenient: bool)
    requires
        d.len() < 8 || (spec_u16(d, false, 0) != 0x4d4d && spec_u16(d, false, 0) != 0x4949),
    ensures
        ({
            let s = spec_parse(d, lenient);
            &&& s.res == if d.len() < 8 {
                Err::<(), Error>(Error::TruncatedHeader)
            } else {
                Err::<(), Error>(Error::InvalidByteOrder)
            }
            &&& s.fields == Seq::<SpecEntry>::empty()
            &&& s.errs == Seq::<Error>::empty()
            &&& s.le_marker is None
        }),
{
}

/// Chain cap law: from a non-zero directory offset at index `ifd_num`,
/// if every directory of the top-level context parses with a non-zero
/// next-directory offset, the walk fails with the structural limit as
/// soon as index 8 is reached -- directories 0 through 7 are the most a
/// chain can ever hold.
pub proof fn lemma_chain_cap(d: Seq<u8>, le: bool, off: int, ifd_num: u16, lenient: bool)
    requires
        off != 0,
        ifd_num <= 8,
        forall|o: int, k: u16|
            o != 0 && k <= 8 ==> ((#[trigger] spec_ifd(d, le, o, Context::Tiff, k, lenient)).next
                matches Ok(nx) && nx != 0),
    ensures
        spec_chain(d, le, off, ifd_num, lenient).res == Err::<(), Error>(Error::IfdCountLimit),
    decreases 8 - ifd_num,
{
    if ifd_num < 8 {
        let o = spec_ifd(d, le, off, Context::Tiff, ifd_num, lenient);
        match o.next {
            Ok(nx) => {
                lemma_chain_cap(d, le, nx as int, (ifd_num + 1) as u16, lenient);
            },
            Err(e) => {
                assert(false);
            },
        }
    }
}

/// Sub-directory isolation law: when a pointer resolves and the child
/// directory itself reports a non-zero next-directory offset, the child
/// parse fails with the unexpected-next-directory fault -- child
/// contexts are not chainable -- while the fields and faults the child
/// collected before the check are retained.
pub proof fn lemma_child_no_chain(
    d: Seq<u8>,
    le: bool,
    typ: u16,
    cnt: u32,
    ofs: u32,
    cctx: Context,
    ifd_num: u16,
    lenient: bool,
    po: u32,
)
    requires
        spec_get_uint(spec_materialize(d, le, typ, cnt, ofs), 0) == Some(po),
        (spec_ifd(d, le, po as int, cctx, ifd_num, lenient).next matches Ok(nx) && nx != 0),
    ensures
        ({
            let ch = spec_child_ifd(d, le, typ, cnt, ofs, cctx, ifd_num, lenient);
            let sub = spec_ifd(d, le, po as int, cctx, ifd_num, lenient);
            &&& ch.res == Err::<(), Error>(Error::UnexpectedNextIfd)
            &&& ch.fields == sub.fields
            &&& ch.errs == sub.errs
        }),
{
}

/// Idempotent materialization law: once an entry is fixed, its value no
/// longer depends on any buffer or byte order -- reading it again, with
/// whatever buffer at hand, yields the bit-identical value and performs
/// no decoding.
pub proof fn lemma_materialize_idempotent(
    e: IfdEntry,
    d1: Seq<u8>,
    d2: Seq<u8>,
    le1: bool,
    le2: bool,
)
    requires
        e.fixed,
    ensures
        e.spec_cell_value(d1, le1) == e.spec_cell_value(d2, le2),
        e.spec_cell_value(d1, le1) == e.field.value@,
{
}

/// Whether `p` is a prefix of `b`.
pub open spec fn is_prefix_of(p: Seq<u8>, b: Seq<u8>) -> bool {
    p.len() <= b.len() && p == b.take(p.len() as int)
}

/// A prefix agrees with the longer buffer at every position it holds.
proof fn lemma_prefix_index(p: Seq<u8>, b: Seq<u8>, i: int)
    requires
        is_prefix_of(p, b),
        0 <= i < p.len(),
    ensures
        p[i] == b[i],
{
    assert(p[i] == b.take(p.len() as int)[i]);
}

/// A 16-bit load within the prefix reads the same value from both.
proof fn lemma_ext_u16(p: Seq<u8>, b: Seq<u8>, le: bool, pos: int)
    requires
        is_prefix_of(p, b),
        0 <= pos,
        pos + 2 <= p.len(),
    ensures
        spec_u16(p, le, pos) == spec_u16(b, le, pos),
{
    lemma_prefix_index(p, b, pos);
    lemma_prefix_index(p, b, pos + 1);
}

/// A 32-bit load within the prefix reads the same value from both.
proof fn lemma_ext_u32(p: Seq<u8>, b: Seq<u8>, le: bool, pos: int)
    requires
        is_prefix_of(p, b),
        0 <= pos,
        pos + 4 <= p.len(),
    ensures
        spec_u32(p, le, pos) == spec_u32(b, le, pos),
{
    lemma_ext_u16(p, b, le, pos);
    lemma_ext_u16(p, b, le, pos + 2);
}

/// The deferred triple of a successfully parsed entry lies within the
/// buffer it was parsed from.
proof fn lemma_entry_triple_in_bounds(d: Seq<u8>, le: bool, pos: int)
    requires
        0 <= pos,
        pos + 12 <= d.len(),
        spec_entry_at(d, le, pos) is Ok,
    ensures
        ({
            let (tag, typ, cnt, ofs) = spec_entry_at(d, le, pos)->Ok_0;
            spec_triple_in_bounds(d, typ, cnt, ofs)
        }),
{
}

/// An entry that parses within the prefix parses identically from the
/// longer buffer.
proof fn lemma_ext_entry(p: Seq<u8>, b: Seq<u8>, le: bool, pos: int)
    requires
        is_prefix_of(p, b),
        0 <= pos,
        pos + 12 <= p.len(),
        spec_entry_at(p, le, pos) is Ok,
    ensures
        spec_entry_at(b, le, pos) == spec_entry_at(p, le, pos),
{
    lemma_ext_u16(p, b, le, pos);
    lemma_ext_u16(p, b, le, pos + 2);
    lemma_ext_u32(p, b, le, pos + 4);
    lemma_ext_u32(p, b, le, pos + 8);
}

/// A deferred triple in bounds of the prefix materializes to the same
/// value from both buffers.
proof fn lemma_ext_materialize(p: Seq<u8>, b: Seq<u8>, le: bool, typ: u16, cnt: u32, ofs: u32)
    requires
        is_prefix_of(p, b),
        spec_triple_in_bounds(p, typ, cnt, ofs),
    ensures
        spec_materialize(p, le, typ, cnt, ofs) == spec_materialize(b, le, typ, cnt, ofs),
{
    let ul = spec_unit_len(typ as int);
    let o = ofs as int;
    let n = cnt as nat;
    if ul != 0 {
        if ul == 1 {
            assert forall|i: int| 0 <= i < n implies #[trigger] p[o + i] == b[o + i] by {
                lemma_prefix_index(p, b, o + i);
            }
        }
        if ul == 2 {
            assert forall|i: int| 0 <= i < n implies #[trigger] spec_u16(p, le, o + 2 * i)
                == spec_u16(b, le, o + 2 * i) by {
                lemma_ext_u16(p, b, le, o + 2 * i);
            }
        }
        if ul == 4 {
            assert forall|i: int| 0 <= i < n implies #[trigger] spec_u32(p, le, o + 4 * i)
                == spec_u32(b, le, o + 4 * i) by {
                lemma_ext_u32(p, b, le, o + 4 * i);
            }
        }
        if ul == 8 {
            assert forall|i: int| 0 <= i < n implies #[trigger] spec_u32(p, le, o + 8 * i)
                == spec_u32(b, le, o + 8 * i) && spec_u32(p, le, o + 8 * i + 4) == spec_u32(
                b,
                le,
                o + 8 * i + 4,
            ) by {
                lemma_ext_u32(p, b, le, o + 8 * i);
                lemma_ext_u32(p, b, le, o + 8 * i + 4);
            }
        }
        if typ == 1 || typ == 7 {
            assert(p.subrange(o, o + n) =~= b.subrange(o, o + n));
        } else if typ == 3 {
            assert(Seq::new(n, |i: int| spec_u16(p, le, o + 2 * i) as u16) =~= Seq::new(
                n,
                |i: int| spec_u16(b, le, o + 2 * i) as u16,
            ));
        } else if typ == 4 {
            assert(Seq::new(n, |i: int| spec_u32(p, le, o + 4 * i) as u32) =~= Seq::new(
                n,
                |i: int| spec_u32(b, le, o + 4 * i) as u32,
            ));
        } else if typ == 5 {
            assert(Seq::new(
                n,
                |i: int|
                    Rational {
                        num: spec_u32(p, le, o + 8 * i) as u32,
                        denom: spec_u32(p, le, o + 8 * i + 4) as u32,
                    },
            ) =~= Seq::new(
                n,
                |i: int|
                    Rational {
                        num: spec_u32(b, le, o + 8 * i) as u32,
                        denom: spec_u32(b, le, o + 8 * i + 4) as u32,
                    },
            ));
        } else if typ == 6 {
            assert(Seq::new(n, |i: int| p[o + i] as i8) =~= Seq::new(n, |i: int| b[o + i] as i8));
        } else if typ == 8 {
            assert(Seq::new(n, |i: int| spec_u16(p, le, o + 2 * i) as u16 as i16) =~= Seq::new(
                n,
                |i: int| spec_u16(b, le, o + 2 * i) as u16 as i16,
            ));
        } else if typ == 9 {
            assert(Seq::new(n, |i: int| spec_u32(p, le, o + 4 * i) as u32 as i32) =~= Seq::new(
                n,
                |i: int| spec_u32(b, le, o + 4 * i) as u32 as i32,
            ));
        } else if typ == 10 {
            assert(Seq::new(
                n,
                |i: int|
                    SRational {
                        num: spec_u32(p, le, o + 8 * i) as u32 as i32,
                        denom: spec_u32(p, le, o + 8 * i + 4) as u32 as i32,
                    },
            ) =~= Seq::new(
                n,
                |i: int|
                    SRational {
                        num: spec_u32(b, le, o + 8 * i) as u32 as i32,
                        denom: spec_u32(b, le, o + 8 * i + 4) as u32 as i32,
                    },
            ));
        }
    }
}

/// An entry scan that succeeds on the prefix runs identically on the
/// longer buffer.
proof fn lemma_ext_entries(
    p: Seq<u8>,
    b: Seq<u8>,
    le: bool,
    pos: int,
    count: int,
    i: int,
    ctx: Context,
    ifd_num: u16,
)
    requires
        is_prefix_of(p, b),
        0 <= pos,
        0 <= i,
        spec_ifd_entries(p, le, pos, count, i, ctx, ifd_num, false).next is Ok,
    ensures
        spec_ifd_entries(b, le, pos, count, i, ctx, ifd_num, false) == spec_ifd_entries(
            p,
            le,
            pos,
            count,
            i,
            ctx,
            ifd_num,
            false,
        ),
    decreases ctx_rank(ctx), count - i + 1, 0int,
{
    if i >= count {
        lemma_ext_u32(p, b, le, pos);
    } else {
        assert(pos + 12 <= p.len());
        lemma_ext_entry(p, b, le, pos);
        let (tag, typ, cnt, ofs) = spec_entry_at(p, le, pos)->Ok_0;
        match spec_child_context(ctx, tag as int) {
            Some(cctx) => {
                lemma_entry_triple_in_bounds(p, le, pos);
                lemma_ext_child(p, b, le, typ, cnt, ofs, cctx, ifd_num);
                lemma_ext_entries(p, b, le, pos + 12, count, i + 1, ctx, ifd_num);
            },
            None => {
                lemma_ext_entries(p, b, le, pos + 12, count, i + 1, ctx, ifd_num);
            },
        }
    }
}

/// A sub-directory parse that succeeds on the prefix runs identically on
/// the longer buffer.
proof fn lemma_ext_child(
    p: Seq<u8>,
    b: Seq<u8>,
    le: bool,
    typ: u16,
    cnt: u32,
    ofs: u32,
    cctx: Context,
    ifd_num: u16,
)
    requires
        is_prefix_of(p, b),
        spec_triple_in_bounds(p, typ, cnt, ofs),
        spec_child_ifd(p, le, typ, cnt, ofs, cctx, ifd_num, false).res is Ok,
    ensures
        spec_child_ifd(b, le, typ, cnt, ofs, cctx, ifd_num, false) == spec_child_ifd(
            p,
            le,
            typ,
            cnt,
            ofs,
            cctx,
            ifd_num,
            false,
        ),
    decreases ctx_rank(cctx) + 1, 0int, 0int,
{
    lemma_ext_materialize(p, b, le, typ, cnt, ofs);
    match spec_get_uint(spec_materialize(p, le, typ, cnt, ofs), 0) {
        Some(po) => {
            lemma_ext_ifd(p, b, le, po as int, cctx, ifd_num);
        },
        None => {
            assert(false);
        },
    }
}

/// A directory parse that succeeds on the prefix runs identically on the
/// longer buffer.
proof fn lemma_ext_ifd(p: Seq<u8>, b: Seq<u8>, le: bool, off: int, ctx: Context, ifd_num: u16)
    requires
        is_prefix_of(p, b),
        0 <= off,
        spec_ifd(p, le, off, ctx, ifd_num, false).next is Ok,
    ensures
        spec_ifd(b, le, off, ctx, ifd_num, false) == spec_ifd(p, le, off, ctx, ifd_num, false),
    decreases ctx_rank(ctx), 65538int, 0int,
{
    assert(off + 2 <= p.len());
    lemma_ext_u16(p, b, le, off);
    lemma_ext_entries(p, b, le, off + 2, spec_u16(p, le, off), 0, ctx, ifd_num);
}

/// A chain walk that succeeds on the prefix runs identically on the
/// longer buffer.
proof fn lemma_ext_chain(p: Seq<u8>, b: Seq<u8>, le: bool, off: int, ifd_num: u16)
    requires
        is_prefix_of(p, b),
        0 <= off,
        spec_chain(p, le, off, ifd_num, false).res is Ok,
    ensures
        spec_chain(b, le, off, ifd_num, false) == spec_chain(p, le, off, ifd_num, false),
    decreases 8 - ifd_num,
{
    if off != 0 && ifd_num < 8 {
        let o = spec_ifd(p, le, off, Context::Tiff, ifd_num, false);
        match o.next {
            Ok(nx) => {
                lemma_ext_ifd(p, b, le, off, Context::Tiff, ifd_num);
                lemma_ext_chain(p, b, le, nx as int, (ifd_num + 1) as u16);
            },
            Err(e) => {
                assert(false);
            },
        }
    }
}

/// Extension law: a buffer that parses successfully still parses to the
/// very same outcome after any bytes are appended.  The walk reads only
/// positions it has checked to be in bounds, and every bounds check only
/// becomes easier on a longer buffer.
pub proof fn lemma_parse_extension(p: Seq<u8>, b: Seq<u8>)
    requires
        is_prefix_of(p, b),
        spec_parse(p, false).res is Ok,
    ensures
        spec_parse(b, false) == spec_parse(p, false),
{
    assert(p.len() >= 8);
    lemma_ext_u16(p, b, false, 0);
    let m = spec_u16(p, false, 0);
    let le = m == 0x4949;
    lemma_ext_u16(p, b, le, 2);
    lemma_ext_u32(p, b, le, 4);
    lemma_ext_chain(p, b, le, spec_u32(p, le, 4), 0);
}

/// Truncation law: when a buffer parses successfully and even dropping
/// its final byte makes parsing fail, every proper prefix fails -- a
/// successful parse of any shorter prefix would, by extension, make the
/// one-byte-shorter buffer parse too.
pub proof fn lemma_prefix_truncation(b: Seq<u8>)
    requires
        spec_parse(b, false).res is Ok,
        spec_parse(b.take(b.len() - 1), false).res is Err,
    ensures
        forall|j: int| 0 <= j < b.len() ==> (#[trigger] spec_parse(b.take(j), false)).res is Err,
{
    assert forall|j: int| 0 <= j < b.len() implies (#[trigger] spec_parse(b.take(j), false)).res
        is Err by {
        if !(spec_parse(b.take(j), false).res is Err) {
            let p = b.take(j);
            let q = b.take(b.len() - 1);
            assert(p =~= q.take(j));
            assert(is_prefix_of(p, q));
            lemma_parse_extension(p, q);
            assert(false);
        }
    }
}

} // verus!
