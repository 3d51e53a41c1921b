//! The textual tag table: key-value metadata lines as an external tool
//! renders them, with lookups, packing to JSON, and a summary object.

use vstd::prelude::*;
use vstd::string::StringExecFns;
use crate::error::Error;
use crate::gps::{Direction, spec_direction_of, spec_direction_letter};
use crate::json::{pairs_to_json, pairs_view, spec_pairs_json};
use crate::strutil::{chars_of, push_char, spec_trim, trimmed_string};
use crate::tuples::Pair;

verus! {

/// The broad kind of a described value.
#[derive(Debug, Clone, Copy, PartialEq, Eq, Structural)]
pub enum ValueType {
    /// Plain text.
    Text,
    /// A GPS coordinate rendered as text.
    Gps,
}

/// One description row: the display name, the key the external tool
/// writes, and the kind of the value.
#[derive(Debug, Clone, Copy)]
pub struct ExifInfo {
    pub dis: &'static str,
    pub exif_tool_desc: &'static str,
    pub value_type: ValueType,
}

/// The view of a description list: (display name, tool key) pairs.
pub open spec fn infos_view(s: Seq<ExifInfo>) -> Seq<(Seq<char>, Seq<char>)> {
    s.map_values(|i: ExifInfo| (i.dis@, i.exif_tool_desc@))
}

/// The fixed catalogue of described tags.
pub struct ExifToolDesc;

/// The view of a key-value list: the texts of keys and values.
pub open spec fn kv_view(s: Seq<(String, String)>) -> Seq<(Seq<char>, Seq<char>)> {
    s.map_values(|p: (String, String)| (p.0@, p.1@))
}

/// The value of the last entry with the given key, if any.
pub open spec fn spec_lookup(entries: Seq<(Seq<char>, Seq<char>)>, key: Seq<char>) -> Option<
    Seq<char>,
>
    decreases entries.len(),
{
    if entries.len() == 0 {
        None
    } else if entries.last().0 == key {
        Some(entries.last().1)
    } else {
        spec_lookup(entries.drop_last(), key)
    }
}

/// The value of the last entry with the given key, or empty text.
pub open spec fn spec_lookup_or_empty(entries: Seq<(Seq<char>, Seq<char>)>, key: Seq<char>) -> Seq<
    char,
> {
    match spec_lookup(entries, key) {
        Some(v) => v,
        None => Seq::empty(),
    }
}

/// A parsed key-value metadata table, in line order.
#[derive(Debug, Clone)]
pub struct Tag {
    /// The raw entries, in the order their lines were read.
    pub entries: Vec<(String, String)>,
}

impl View for Tag {
    type V = Seq<(Seq<char>, Seq<char>)>;

    open spec fn view(&self) -> Seq<(Seq<char>, Seq<char>)> {
        kv_view(self.entries@)
    }
}

/// `p` with one trailing carriage return removed.
pub open spec fn spec_strip_cr(p: Seq<char>) -> Seq<char> {
    if p.len() > 0 && p.last() == '\r' {
        p.drop_last()
    } else {
        p
    }
}

/// Whether `k` is the first colon of `line`.
pub open spec fn spec_first_colon_is(line: Seq<char>, k: int) -> bool {
    0 <= k < line.len() && line[k] == ':' && forall|j: int| 0 <= j < k ==> line[j] != ':'
}

/// The entry one line yields: the text before the first colon and the
/// text after it, both trimmed; a line without a colon yields nothing.
pub open spec fn spec_line_entry(line: Seq<char>) -> Option<(Seq<char>, Seq<char>)> {
    if exists|k: int| spec_first_colon_is(line, k) {
        let k = choose|k: int| spec_first_colon_is(line, k);
        Some((spec_trim(line.take(k)), spec_trim(line.skip(k + 1))))
    } else {
        None
    }
}

/// The entries one line contributes: one or none.
pub open spec fn spec_opt_entry(line: Seq<char>) -> Seq<(Seq<char>, Seq<char>)> {
    match spec_line_entry(line) {
        Some(p) => seq![p],
        None => Seq::empty(),
    }
}

/// Scan the text character by character: a newline ends the current
/// line (one trailing carriage return stripped) and contributes its
/// entry; a final line needs no line ending.
pub open spec fn spec_scan_lines(
    s: Seq<char>,
    cur: Seq<char>,
    acc: Seq<(Seq<char>, Seq<char>)>,
) -> Seq<(Seq<char>, Seq<char>)>
    decreases s.len(),
{
    if s.len() == 0 {
        if cur.len() == 0 {
            acc
        } else {
            acc + spec_opt_entry(cur)
        }
    } else if s[0] == '\n' {
        spec_scan_lines(s.skip(1), Seq::empty(), acc + spec_opt_entry(spec_strip_cr(cur)))
    } else {
        spec_scan_lines(s.skip(1), cur.push(s[0]), acc)
    }
}

/// The entries of a whole text, line by line.
pub open spec fn spec_tag_entries(s: Seq<char>) -> Seq<(Seq<char>, Seq<char>)> {
    spec_scan_lines(s, Seq::empty(), Seq::empty())
}

/// Appending one parsed entry extends the view by its texts.
proof fn lemma_kv_push(s: Seq<(String, String)>, x: (String, String))
    ensures
        kv_view(s.push(x)) == kv_view(s).push((x.0@, x.1@)),
{
    assert(kv_view(s.push(x)) =~= kv_view(s).push((x.0@, x.1@)));
}

impl Tag {
    /// An empty table.
    pub fn new() -> (r: Tag)
        ensures
            r@ == Seq::<(Seq<char>, Seq<char>)>::empty(),
    {
        let t = Tag { entries: Vec::new() };
        proof {
            assert(t@ =~= Seq::<(Seq<char>, Seq<char>)>::empty());
        }
        t
    }

    /// Append the entry of one line, if the line holds a colon.
    fn push_line_entry(&mut self, line: &Vec<char>)
        ensures
            final(self)@ == old(self)@ + spec_opt_entry(line@),
    {
        let m = line.len();
        let mut k: usize = 0;
        while k < m && line[k] != ':'
            invariant
                k <= m,
                m == line@.len(),
                forall|j: int| 0 <= j < k ==> line@[j] != ':',
            decreases m - k,
        {
            k = k + 1;
        }
        if k == m {
            proof {
                assert forall|kk: int| !spec_first_colon_is(line@, kk) by {
                    if 0 <= kk < line@.len() {
                        assert(line@[kk] != ':');
                    }
                }
                assert(spec_opt_entry(line@) =~= Seq::<(Seq<char>, Seq<char>)>::empty());
                assert(self@ + spec_opt_entry(line@) =~= self@);
            }
            return ;
        }
        proof {
            assert(spec_first_colon_is(line@, k as int));
            let kk = choose|kk: int| spec_first_colon_is(line@, kk);
            if kk < k {
                assert(line@[kk] != ':');
            }
            if kk > k {
                assert(line@[k as int] != ':');
            }
            assert(kk == k);
        }
        let key = trimmed_string(line, 0, k);
        let value = trimmed_string(line, k + 1, m);
        proof {
            assert(line@.subrange(0, k as int) =~= line@.take(k as int));
            assert(line@.subrange(k + 1, m as int) =~= line@.skip(k + 1));
        }
        let ghost epre = self.entries@;
        self.entries.push((key, value));
        proof {
            lemma_kv_push(epre, (key, value));
            assert(kv_view(epre).push((key@, value@)) =~= kv_view(epre) + spec_opt_entry(line@));
        }
    }

    /// Parse a block of `key: value` lines into the table, appending to
    /// whatever it already holds.  Keys and values are trimmed; lines
    /// without a colon are skipped.
    pub fn parse(self, info: &str) -> (r: Tag)
        ensures
            r@ == self@ + spec_tag_entries(info@),
    {
        let mut t = self;
        let ghost entries0 = t@;
        let v = chars_of(info);
        let n = v.len();
        let mut cur: Vec<char> = Vec::new();
        let ghost mut acc: Seq<(Seq<char>, Seq<char>)> = Seq::empty();
        proof {
            assert(cur@ =~= Seq::<char>::empty());
            assert(t@ =~= entries0 + acc);
            assert(v@.skip(0) =~= v@);
        }
        for i in 0..n
            invariant
                n == v@.len(),
                v@ == info@,
                t@ == entries0 + acc,
                spec_scan_lines(v@.skip(i as int), cur@, acc) == spec_tag_entries(info@),
        {
            let ghost cur0 = cur@;
            let ghost acc0 = acc;
            let c = v[i];
            proof {
                assert(v@.skip(i as int)[0] == c);
                assert(v@.skip(i as int).skip(1) =~= v@.skip(i + 1));
            }
            if c == '\n' {
                let ghost line = spec_strip_cr(cur@);
                if cur.len() > 0 && cur[cur.len() - 1] == '\r' {
                    cur.pop();
                    proof {
                        assert(cur@ =~= line);
                    }
                }
                t.push_line_entry(&cur);
                proof {
                    acc = acc + spec_opt_entry(line);
                    lemma_seq_assoc_kv(entries0, acc0, spec_opt_entry(line));
                }
                cur = Vec::new();
                proof {
                    assert(cur@ =~= Seq::<char>::empty());
                }
            } else {
                cur.push(c);
                proof {
                    assert(cur@ == cur0.push(c));
                }
            }
        }
        proof {
            assert(v@.skip(n as int) =~= Seq::<char>::empty());
        }
        if cur.len() > 0 {
            let ghost acc0 = acc;
            t.push_line_entry(&cur);
            proof {
                acc = acc + spec_opt_entry(cur@);
                lemma_seq_assoc_kv(entries0, acc0, spec_opt_entry(cur@));
            }
        }
        t
    }

    /// Look up the value stored under `key`: the last line with that
    /// key wins.
    pub fn get(&self, key: &str) -> (r: Option<String>)
        ensures
            match (r, spec_lookup(self@, key@)) {
                (Some(v), Some(sv)) => v@ == sv,
                (None, None) => true,
                _ => false,
            },
    {
        let key_s: String = key.to_owned();
        let mut i = self.entries.len();
        proof {
            assert(kv_view(self.entries@).take(i as int) =~= kv_view(self.entries@));
        }
        while i > 0
            invariant
                i <= self.entries@.len(),
                key_s@ == key@,
                spec_lookup(self@, key@) == spec_lookup(kv_view(self.entries@).take(i as int), key@),
            decreases i,
        {
            i = i - 1;
            let ghost pre = kv_view(self.entries@).take(i + 1);
            proof {
                assert(pre.drop_last() =~= kv_view(self.entries@).take(i as int));
                assert(pre.last() == (self.entries@[i as int].0@, self.entries@[i as int].1@));
            }
            if self.entries[i].0 == key_s {
                let v = self.entries[i].1.clone();
                return Some(v);
            }
        }
        proof {
            assert(kv_view(self.entries@).take(0) =~= Seq::<(Seq<char>, Seq<char>)>::empty());
        }
        None
    }

    /// Look up the value stored under `key`, or empty text.
    pub fn get_or_empty(&self, key: &str) -> (r: String)
        ensures
            r@ == spec_lookup_or_empty(self@, key@),
    {
        match self.get(key) {
            Some(v) => v,
            None => String::new(),
        }
    }
}

/// Concatenation of view sequences is associative.
proof fn lemma_seq_assoc_kv(
    a: Seq<(Seq<char>, Seq<char>)>,
    b: Seq<(Seq<char>, Seq<char>)>,
    c: Seq<(Seq<char>, Seq<char>)>,
)
    ensures
        (a + b) + c == a + (b + c),
{
    assert((a + b) + c =~= a + (b + c));
}

/// The (display name, tool key) rows of the catalogue, in order.
pub open spec fn spec_infos() -> Seq<(Seq<char>, Seq<char>)> {
    seq![
        ("\u{76f8}\u{673a}\u{5236}\u{9020}\u{5546}"@, "Make"@),
        ("\u{76f8}\u{673a}\u{578b}\u{53f7}"@, "Camera Model Name"@),
        ("\u{8f6f}\u{4ef6}"@, "Software"@),
        ("\u{5feb}\u{95e8}\u{901f}\u{5ea6}"@, "Exposure Time"@),
        ("\u{5149}\u{5708}\u{6570}"@, "F Number"@),
        ("ISO \u{611f}\u{5149}\u{5ea6}"@, "ISO"@),
        ("Exif \u{7248}\u{672c}"@, "Exif Version"@),
        ("\u{62cd}\u{6444}\u{65f6}\u{95f4}"@, "Date/Time Original"@),
        ("\u{65f6}\u{533a}"@, "Offset Time"@),
        ("\u{6700}\u{5927}\u{5149}\u{5708}"@, "Max Aperture Value"@),
        ("\u{7126}\u{8ddd}"@, "Focal Length"@),
        ("\u{7b49}\u{6548}\u{7126}\u{8ddd}"@, "Focal Length In 35mm Format"@),
        ("\u{56fe}\u{50cf}\u{5bbd}\u{5ea6}"@, "Image Width"@),
        ("\u{56fe}\u{50cf}\u{957f}\u{5ea6}"@, "Image Height"@),
        ("GPS \u{7eac}\u{5ea6}\u{53c2}\u{8003}"@, "GPS Latitude Ref"@),
        ("GPS \u{7ecf}\u{5ea6}\u{53c2}\u{8003}"@, "GPS Longitude Ref"@),
        ("GPS \u{7eac}\u{5ea6}"@, "GPS Latitude"@),
        ("GPS \u{7ecf}\u{5ea6}"@, "GPS Longitude"@),
        ("GPS \u{6d77}\u{62d4}"@, "GPS Altitude"@),
        ("\u{66dd}\u{5149}\u{7a0b}\u{5e8f}"@, "Exposure Program"@),
        ("\u{6d4b}\u{5149}\u{6a21}\u{5f0f}"@, "Metering Mode"@),
        ("\u{95ea}\u{5149}\u{706f}"@, "Flash"@),
        ("\u{827a}\u{672f}\u{5bb6}"@, "Artist"@),
    ]
}

/// The rows packed for plain display, in their fixed order.
pub open spec fn spec_front_basic() -> Seq<(Seq<char>, Seq<char>)> {
    seq![
        ("\u{76f8}\u{673a}\u{5236}\u{9020}\u{5546}"@, "Make"@),
        ("\u{76f8}\u{673a}\u{578b}\u{53f7}"@, "Camera Model Name"@),
        ("\u{8f6f}\u{4ef6}"@, "Software"@),
        ("\u{827a}\u{672f}\u{5bb6}"@, "Artist"@),
        ("\u{95ea}\u{5149}\u{706f}"@, "Flash"@),
        ("\u{7126}\u{8ddd}"@, "Focal Length"@),
        ("\u{5feb}\u{95e8}\u{901f}\u{5ea6}"@, "Exposure Time"@),
        ("\u{5149}\u{5708}\u{6570}"@, "F Number"@),
        ("ISO \u{611f}\u{5149}\u{5ea6}"@, "ISO"@),
        ("\u{66dd}\u{5149}\u{7a0b}\u{5e8f}"@, "Exposure Program"@),
        ("\u{6d4b}\u{5149}\u{6a21}\u{5f0f}"@, "Metering Mode"@),
    ]
}

impl ExifToolDesc {
    /// The catalogue rows, in order.
    pub fn front_infos() -> (r: Vec<ExifInfo>)
        ensures
            infos_view(r@) == spec_infos(),
    {
        let mut v: Vec<ExifInfo> = Vec::new();
        v.push(ExifInfo { dis: "\u{76f8}\u{673a}\u{5236}\u{9020}\u{5546}", exif_tool_desc: "Make", value_type: ValueType::Text });
        v.push(ExifInfo { dis: "\u{76f8}\u{673a}\u{578b}\u{53f7}", exif_tool_desc: "Camera Model Name", value_type: ValueType::Text });
        v.push(ExifInfo { dis: "\u{8f6f}\u{4ef6}", exif_tool_desc: "Software", value_type: ValueType::Text });
        v.push(ExifInfo { dis: "\u{5feb}\u{95e8}\u{901f}\u{5ea6}", exif_tool_desc: "Exposure Time", value_type: ValueType::Text });
        v.push(ExifInfo { dis: "\u{5149}\u{5708}\u{6570}", exif_tool_desc: "F Number", value_type: ValueType::Text });
        v.push(ExifInfo { dis: "ISO \u{611f}\u{5149}\u{5ea6}", exif_tool_desc: "ISO", value_type: ValueType::Text });
        v.push(ExifInfo { dis: "Exif \u{7248}\u{672c}", exif_tool_desc: "Exif Version", value_type: ValueType::Text });
        v.push(ExifInfo { dis: "\u{62cd}\u{6444}\u{65f6}\u{95f4}", exif_tool_desc: "Date/Time Original", value_type: ValueType::Text });
        v.push(ExifInfo { dis: "\u{65f6}\u{533a}", exif_tool_desc: "Offset Time", value_type: ValueType::Text });
        v.push(ExifInfo { dis: "\u{6700}\u{5927}\u{5149}\u{5708}", exif_tool_desc: "Max Aperture Value", value_type: ValueType::Text });
        v.push(ExifInfo { dis: "\u{7126}\u{8ddd}", exif_tool_desc: "Focal Length", value_type: ValueType::Text });
        v.push(ExifInfo { dis: "\u{7b49}\u{6548}\u{7126}\u{8ddd}", exif_tool_desc: "Focal Length In 35mm Format", value_type: ValueType::Text });
        v.push(ExifInfo { dis: "\u{56fe}\u{50cf}\u{5bbd}\u{5ea6}", exif_tool_desc: "Image Width", value_type: ValueType::Text });
        v.push(ExifInfo { dis: "\u{56fe}\u{50cf}\u{957f}\u{5ea6}", exif_tool_desc: "Image Height", value_type: ValueType::Text });
        v.push(ExifInfo { dis: "GPS \u{7eac}\u{5ea6}\u{53c2}\u{8003}", exif_tool_desc: "GPS Latitude Ref", value_type: ValueType::Text });
        v.push(ExifInfo { dis: "GPS \u{7ecf}\u{5ea6}\u{53c2}\u{8003}", exif_tool_desc: "GPS Longitude Ref", value_type: ValueType::Text });
        v.push(ExifInfo { dis: "GPS \u{7eac}\u{5ea6}", exif_tool_desc: "GPS Latitude", value_type: ValueType::Gps });
        v.push(ExifInfo { dis: "GPS \u{7ecf}\u{5ea6}", exif_tool_desc: "GPS Longitude", value_type: ValueType::Gps });
        v.push(ExifInfo { dis: "GPS \u{6d77}\u{62d4}", exif_tool_desc: "GPS Altitude", value_type: ValueType::Text });
        v.push(ExifInfo { dis: "\u{66dd}\u{5149}\u{7a0b}\u{5e8f}", exif_tool_desc: "Exposure Program", value_type: ValueType::Text });
        v.push(ExifInfo { dis: "\u{6d4b}\u{5149}\u{6a21}\u{5f0f}", exif_tool_desc: "Metering Mode", value_type: ValueType::Text });
        v.push(ExifInfo { dis: "\u{95ea}\u{5149}\u{706f}", exif_tool_desc: "Flash", value_type: ValueType::Text });
        v.push(ExifInfo { dis: "\u{827a}\u{672f}\u{5bb6}", exif_tool_desc: "Artist", value_type: ValueType::Text });
        proof {
            assert(infos_view(v@) =~= spec_infos());
        }
        v
    }

    /// The rows packed for plain display, in order.
    pub fn front_basic_infos() -> (r: Vec<ExifInfo>)
        ensures
            infos_view(r@) == spec_front_basic(),
    {
        let mut v: Vec<ExifInfo> = Vec::new();
        v.push(ExifInfo { dis: "\u{76f8}\u{673a}\u{5236}\u{9020}\u{5546}", exif_tool_desc: "Make", value_type: ValueType::Text });
        v.push(ExifInfo { dis: "\u{76f8}\u{673a}\u{578b}\u{53f7}", exif_tool_desc: "Camera Model Name", value_type: ValueType::Text });
        v.push(ExifInfo { dis: "\u{8f6f}\u{4ef6}", exif_tool_desc: "Software", value_type: ValueType::Text });
        v.push(ExifInfo { dis: "\u{827a}\u{672f}\u{5bb6}", exif_tool_desc: "Artist", value_type: ValueType::Text });
        v.push(ExifInfo { dis: "\u{95ea}\u{5149}\u{706f}", exif_tool_desc: "Flash", value_type: ValueType::Text });
        v.push(ExifInfo { dis: "\u{7126}\u{8ddd}", exif_tool_desc: "Focal Length", value_type: ValueType::Text });
        v.push(ExifInfo { dis: "\u{5feb}\u{95e8}\u{901f}\u{5ea6}", exif_tool_desc: "Exposure Time", value_type: ValueType::Text });
        v.push(ExifInfo { dis: "\u{5149}\u{5708}\u{6570}", exif_tool_desc: "F Number", value_type: ValueType::Text });
        v.push(ExifInfo { dis: "ISO \u{611f}\u{5149}\u{5ea6}", exif_tool_desc: "ISO", value_type: ValueType::Text });
        v.push(ExifInfo { dis: "\u{66dd}\u{5149}\u{7a0b}\u{5e8f}", exif_tool_desc: "Exposure Program", value_type: ValueType::Text });
        v.push(ExifInfo { dis: "\u{6d4b}\u{5149}\u{6a21}\u{5f0f}", exif_tool_desc: "Metering Mode", value_type: ValueType::Text });
        proof {
            assert(infos_view(v@) =~= spec_front_basic());
        }
        v
    }
}

/// The rows selected from a table: for each catalogue row whose tool
/// key is present, the display name with the stored value.
pub open spec fn spec_selected(
    entries: Seq<(Seq<char>, Seq<char>)>,
    infos: Seq<(Seq<char>, Seq<char>)>,
) -> Seq<(Seq<char>, Seq<char>)>
    decreases infos.len(),
{
    if infos.len() == 0 {
        Seq::empty()
    } else {
        spec_selected(entries, infos.drop_last()) + match spec_lookup(entries, infos.last().1) {
            Some(v) => seq![(infos.last().0, v)],
            None => Seq::<(Seq<char>, Seq<char>)>::empty(),
        }
    }
}

/// The single-letter resolution of a direction field, or empty text.
pub open spec fn spec_resolve_direction(s: Seq<char>) -> Seq<char> {
    match spec_direction_of(s) {
        Some(d) => spec_direction_letter(d),
        None => Seq::empty(),
    }
}

/// One coordinate part of the GPS summary: the resolved reference
/// letter, a space, and the coordinate text -- or empty text when the
/// coordinate is absent.
pub open spec fn spec_gps_part(
    entries: Seq<(Seq<char>, Seq<char>)>,
    coord_key: Seq<char>,
    ref_key: Seq<char>,
) -> Seq<char> {
    match spec_lookup(entries, coord_key) {
        Some(gc) => {
            let r = match spec_lookup(entries, ref_key) {
                Some(x) => spec_resolve_direction(x),
                None => Seq::empty(),
            };
            r + seq![' '] + gc
        },
        None => Seq::empty(),
    }
}

/// The GPS summary of a table: latitude part, longitude part and
/// altitude, joined by commas.
pub open spec fn spec_gps_summary(entries: Seq<(Seq<char>, Seq<char>)>) -> Seq<char> {
    spec_gps_part(entries, "GPS Latitude"@, "GPS Latitude Ref"@) + seq![','] + spec_gps_part(
        entries,
        "GPS Longitude"@,
        "GPS Longitude Ref"@,
    ) + seq![','] + spec_lookup_or_empty(entries, "GPS Altitude"@)
}

impl Tag {
    /// Select the catalogue rows present in this table, in catalogue
    /// order, as display pairs.
    fn select_pairs(&self, infos: &Vec<ExifInfo>) -> (r: Vec<Pair<String, String>>)
        ensures
            pairs_view(r@) == spec_selected(self@, infos_view(infos@)),
    {
        let mut res: Vec<Pair<String, String>> = Vec::new();
        let n = infos.len();
        proof {
            assert(pairs_view(res@) =~= Seq::<(Seq<char>, Seq<char>)>::empty());
            assert(infos_view(infos@).take(0) =~= Seq::<(Seq<char>, Seq<char>)>::empty());
        }
        for i in 0..n
            invariant
                n == infos@.len(),
                pairs_view(res@) == spec_selected(self@, infos_view(infos@).take(i as int)),
        {
            let ghost iv = infos_view(infos@);
            proof {
                assert(iv.take(i + 1).drop_last() =~= iv.take(i as int));
                assert(iv.take(i + 1).last() == iv[i as int]);
                assert(iv[i as int] == (infos@[i as int].dis@, infos@[i as int].exif_tool_desc@));
            }
            match self.get(infos[i].exif_tool_desc) {
                Some(v) => {
                    let ghost rpre = res@;
                    res.push(Pair { first: infos[i].dis.to_owned(), second: v });
                    proof {
                        assert(pairs_view(res@) =~= pairs_view(rpre) + seq![
                            (infos@[i as int].dis@, spec_lookup(self@, iv[i as int].1)->Some_0),
                        ]);
                    }
                },
                None => {
                    proof {
                        assert(pairs_view(res@) + Seq::<(Seq<char>, Seq<char>)>::empty()
                            =~= pairs_view(res@));
                    }
                },
            }
        }
        proof {
            assert(infos_view(infos@).take(n as int) =~= infos_view(infos@));
        }
        res
    }

    /// Pack the catalogue rows present in this table as a JSON array of
    /// display pairs.
    pub fn pack_tags(&self) -> (r: Result<String, Error>)
        ensures
            (r matches Ok(s) && s@ == spec_pairs_json(spec_selected(self@, spec_infos()))),
    {
        let infos = ExifToolDesc::front_infos();
        let pairs = self.select_pairs(&infos);
        Ok(pairs_to_json(&pairs))
    }

    /// The GPS summary of this table: resolved latitude and longitude
    /// parts and the altitude, joined by commas.
    pub fn parse_gps_tags(&self) -> (r: Result<String, Error>)
        ensures
            (r matches Ok(s) && s@ == spec_gps_summary(self@)),
    {
        let mut out = self.gps_part("GPS Latitude", "GPS Latitude Ref");
        push_char(&mut out, ',');
        let lon = self.gps_part("GPS Longitude", "GPS Longitude Ref");
        out.append(lon.as_str());
        push_char(&mut out, ',');
        let alt = self.get_or_empty("GPS Altitude");
        out.append(alt.as_str());
        proof {
            assert(out@ =~= spec_gps_summary(self@));
        }
        Ok(out)
    }

    /// One coordinate part of the GPS summary.
    fn gps_part(&self, coord_key: &str, ref_key: &str) -> (r: String)
        ensures
            r@ == spec_gps_part(self@, coord_key@, ref_key@),
    {
        match self.get(coord_key) {
            Some(gc) => {
                let mut out = match self.get(ref_key) {
                    Some(x) => {
                        match Direction::from_str(x.as_str()) {
                            Some(d) => d.letter(),
                            None => String::new(),
                        }
                    },
                    None => String::new(),
                };
                push_char(&mut out, ' ');
                out.append(gc.as_str());
                proof {
                    assert(out@ =~= spec_gps_part(self@, coord_key@, ref_key@));
                }
                out
            },
            None => {
                let out = String::new();
                proof {
                    assert(out@ =~= spec_gps_part(self@, coord_key@, ref_key@));
                }
                out
            },
        }
    }

    /// The display pairs of the front packing: the basic rows, the
    /// focal length combined with its 35mm equivalent when present, and
    /// the GPS summary.
    pub open spec fn spec_front_pairs(entries: Seq<(Seq<char>, Seq<char>)>) -> Seq<
        (Seq<char>, Seq<char>),
    > {
        spec_selected(entries, spec_front_basic()) + spec_focal_pair(entries) + seq![
            ("GPS \u{4fe1}\u{606f}"@, spec_gps_summary(entries)),
        ]
    }

    /// Pack the display rows of this table as a JSON array: the basic
    /// rows, the focal-length combination, and the GPS summary.
    pub fn pack_front_tags(&self) -> (r: Result<String, Error>)
        ensures
            (r matches Ok(s) && s@ == spec_pairs_json(Self::spec_front_pairs(self@))),
    {
        let infos = ExifToolDesc::front_basic_infos();
        let mut pairs = self.select_pairs(&infos);
        let ghost p0 = pairs_view(pairs@);
        match self.get("Focal Length") {
            Some(fl) => {
                let mm35 = self.get_or_empty("Focal Length In 35mm Format");
                let mut ans = fl;
                if mm35.as_str().unicode_len() > 0 {
                    ans.append(", \u{7b49}\u{6548}\u{7126}\u{8ddd}: ");
                    ans.append(mm35.as_str());
                }
                let ghost ppre = pairs@;
                pairs.push(Pair { first: "\u{7126}\u{8ddd}".to_owned(), second: ans });
                proof {
                    assert(pairs_view(pairs@) =~= p0 + spec_focal_pair(self@));
                }
            },
            None => {
                proof {
                    assert(p0 + spec_focal_pair(self@) =~= p0);
                }
            },
        }
        let ghost p1 = pairs_view(pairs@);
        let gps = self.parse_gps_tags();
        let gps_text = match gps {
            Ok(g) => g,
            Err(_) => String::new(),
        };
        let ghost ppre2 = pairs@;
        pairs.push(Pair { first: "GPS \u{4fe1}\u{606f}".to_owned(), second: gps_text });
        proof {
            assert(pairs_view(pairs@) =~= p1 + seq![("GPS \u{4fe1}\u{606f}"@, spec_gps_summary(self@))]);
            assert(pairs_view(pairs@) =~= Self::spec_front_pairs(self@));
        }
        Ok(pairs_to_json(&pairs))
    }
}

/// The focal-length display pair: the focal length, extended by the
/// 35mm-equivalent when that is present; nothing when the focal length
/// is absent.
pub open spec fn spec_focal_pair(entries: Seq<(Seq<char>, Seq<char>)>) -> Seq<
    (Seq<char>, Seq<char>),
> {
    match spec_lookup(entries, "Focal Length"@) {
        Some(fl) => {
            let mm35 = spec_lookup_or_empty(entries, "Focal Length In 35mm Format"@);
            let ans = if mm35.len() == 0 {
                fl
            } else {
                fl + ", \u{7b49}\u{6548}\u{7126}\u{8ddd}: "@ + mm35
            };
            seq![("\u{7126}\u{8ddd}"@, ans)]
        },
        None => Seq::empty(),
    }
}

/// Whether `c` is an ASCII decimal digit.
pub open spec fn spec_digit_c(c: char) -> bool {
    '0' <= c <= '9'
}

/// The minutes east of the zero meridian named by a `+HH:MM` offset
/// text; anything else (a negative or malformed offset) counts as zero.
pub open spec fn spec_offset_minutes(s: Seq<char>) -> u32 {
    if s.len() >= 6 && s[0] == '+' && spec_digit_c(s[1]) && spec_digit_c(s[2]) && s[3] == ':'
        && spec_digit_c(s[4]) && spec_digit_c(s[5]) {
        (((s[1] as int - 48) * 10 + (s[2] as int - 48)) * 60 + (s[4] as int - 48) * 10 + (
        s[5] as int - 48)) as u32
    } else {
        0
    }
}

/// The mathematical model of a packed metadata object.
pub struct ImgExifModel {
    pub make: Seq<char>,
    pub model: Seq<char>,
    pub software: Seq<char>,
    pub exposure_time: Seq<char>,
    pub flash: Seq<char>,
    pub f_number: Seq<char>,
    pub iso: Seq<char>,
    pub date_time_original: Seq<char>,
    pub offset_time: u32,
    pub max_aperture_value: Seq<char>,
    pub focal_length: Seq<char>,
    pub image_width: Seq<char>,
    pub image_height: Seq<char>,
    pub gps_info: Seq<char>,
    pub exposure_program: Seq<char>,
    pub metering_mode: Seq<char>,
    pub artist: Seq<char>,
}

/// The packed metadata object of an image: the catalogued attributes as
/// plain text, the time-zone offset in minutes, and the GPS summary.
#[derive(Debug)]
pub struct ImgExif {
    make: String,
    model: String,
    software: String,
    exposure_time: String,
    flash: String,
    f_number: String,
    iso: String,
    date_time_original: String,
    offset_time: u32,
    max_aperture_value: String,
    focal_length: String,
    image_width: String,
    image_height: String,
    gps_info: String,
    exposure_program: String,
    metering_mode: String,
    artist: String,
}

impl View for ImgExif {
    type V = ImgExifModel;

    closed spec fn view(&self) -> ImgExifModel {
        ImgExifModel {
            make: self.make@,
            model: self.model@,
            software: self.software@,
            exposure_time: self.exposure_time@,
            flash: self.flash@,
            f_number: self.f_number@,
            iso: self.iso@,
            date_time_original: self.date_time_original@,
            offset_time: self.offset_time,
            max_aperture_value: self.max_aperture_value@,
            focal_length: self.focal_length@,
            image_width: self.image_width@,
            image_height: self.image_height@,
            gps_info: self.gps_info@,
            exposure_program: self.exposure_program@,
            metering_mode: self.metering_mode@,
            artist: self.artist@,
        }
    }
}

/// The packed object a table yields: each attribute is the stored text
/// of its tool key (or empty), the offset is read from the offset-time
/// text, and the GPS summary is composed as `spec_gps_summary` states.
pub open spec fn spec_pack_object(entries: Seq<(Seq<char>, Seq<char>)>) -> ImgExifModel {
    ImgExifModel {
        make: spec_lookup_or_empty(entries, "Make"@),
        model: spec_lookup_or_empty(entries, "Camera Model Name"@),
        software: spec_lookup_or_empty(entries, "Software"@),
        exposure_time: spec_lookup_or_empty(entries, "Exposure Time"@),
        flash: spec_lookup_or_empty(entries, "Flash"@),
        f_number: spec_lookup_or_empty(entries, "F Number"@),
        iso: spec_lookup_or_empty(entries, "ISO"@),
        date_time_original: spec_lookup_or_empty(entries, "Date/Time Original"@),
        offset_time: spec_offset_minutes(spec_lookup_or_empty(entries, "Offset Time"@)),
        max_aperture_value: spec_lookup_or_empty(entries, "Max Aperture Value"@),
        focal_length: spec_lookup_or_empty(entries, "Focal Length"@),
        image_width: spec_lookup_or_empty(entries, "Image Width"@),
        image_height: spec_lookup_or_empty(entries, "Image Height"@),
        gps_info: spec_gps_summary(entries),
        exposure_program: spec_lookup_or_empty(entries, "Exposure Program"@),
        metering_mode: spec_lookup_or_empty(entries, "Metering Mode"@),
        artist: spec_lookup_or_empty(entries, "Artist"@),
    }
}

/// The minutes east named by a `+HH:MM` offset text; zero otherwise.
fn offset_minutes(s: &str) -> (r: u32)
    ensures
        r == spec_offset_minutes(s@),
{
    let v = chars_of(s);
    if v.len() >= 6 {
        let c1 = v[1];
        let c2 = v[2];
        let c4 = v[4];
        let c5 = v[5];
        if v[0] == '+' && ('0' <= c1 && c1 <= '9') && ('0' <= c2 && c2 <= '9') && v[3] == ':' && (
        '0' <= c4 && c4 <= '9') && ('0' <= c5 && c5 <= '9') {
            let h = (c1 as u32 - 48) * 10 + (c2 as u32 - 48);
            let m = (c4 as u32 - 48) * 10 + (c5 as u32 - 48);
            return h * 60 + m;
        }
    }
    0
}

impl Tag {
    /// Pack this table into the metadata object, exactly as
    /// `spec_pack_object` states.
    pub fn pack_object(&self) -> (r: ImgExif)
        ensures
            r@ == spec_pack_object(self@),
    {
        let gps = match self.parse_gps_tags() {
            Ok(g) => g,
            Err(_) => String::new(),
        };
        let offset_text = self.get_or_empty("Offset Time");
        ImgExif {
            make: self.get_or_empty("Make"),
            model: self.get_or_empty("Camera Model Name"),
            software: self.get_or_empty("Software"),
            exposure_time: self.get_or_empty("Exposure Time"),
            flash: self.get_or_empty("Flash"),
            f_number: self.get_or_empty("F Number"),
            iso: self.get_or_empty("ISO"),
            date_time_original: self.get_or_empty("Date/Time Original"),
            offset_time: offset_minutes(offset_text.as_str()),
            max_aperture_value: self.get_or_empty("Max Aperture Value"),
            focal_length: self.get_or_empty("Focal Length"),
            image_width: self.get_or_empty("Image Width"),
            image_height: self.get_or_empty("Image Height"),
            gps_info: gps,
            exposure_program: self.get_or_empty("Exposure Program"),
            metering_mode: self.get_or_empty("Metering Mode"),
            artist: self.get_or_empty("Artist"),
        }
    }
}

} // verus!
