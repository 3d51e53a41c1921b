//! A small JSON emitter for lists of string pairs: exact escaping, no
//! outside serializer.

use vstd::prelude::*;
use crate::strutil::push_char;
use crate::hash::spec_hex_char;
use crate::tuples::Pair;
use vstd::string::StringExecFns;

verus! {

/// The JSON escape of one character: the two-character escapes for the
/// quote, the backslash and the common control characters, a `\u00xx`
/// escape for the remaining control characters, and the character
/// itself otherwise.
pub open spec fn spec_json_escape_char(c: char) -> Seq<char> {
    if c == '"' {
        seq!['\\', '"']
    } else if c == '\\' {
        seq!['\\', '\\']
    } else if c == '\u{8}' {
        seq!['\\', 'b']
    } else if c == '\u{c}' {
        seq!['\\', 'f']
    } else if c == '\n' {
        seq!['\\', 'n']
    } else if c == '\r' {
        seq!['\\', 'r']
    } else if c == '\t' {
        seq!['\\', 't']
    } else if (c as u32) < 0x20 {
        seq!['\\', 'u', '0', '0', spec_hex_char(c as int / 16), spec_hex_char(c as int % 16)]
    } else {
        seq![c]
    }
}

/// The JSON escape of a character sequence.
pub open spec fn spec_json_escape(s: Seq<char>) -> Seq<char>
    decreases s.len(),
{
    if s.len() == 0 {
        Seq::empty()
    } else {
        spec_json_escape(s.drop_last()) + spec_json_escape_char(s.last())
    }
}

/// The JSON string literal of a character sequence.
pub open spec fn spec_json_string(s: Seq<char>) -> Seq<char> {
    seq!['"'] + spec_json_escape(s) + seq!['"']
}

/// The JSON object of one pair.
pub open spec fn spec_pair_json(k: Seq<char>, v: Seq<char>) -> Seq<char> {
    "{\"first\":"@ + spec_json_string(k) + ",\"second\":"@ + spec_json_string(v) + "}"@
}

/// The body of the JSON array of a pair list: the objects joined by
/// commas.
pub open spec fn spec_pairs_body(ps: Seq<(Seq<char>, Seq<char>)>) -> Seq<char>
    decreases ps.len(),
{
    if ps.len() == 0 {
        Seq::empty()
    } else if ps.len() == 1 {
        spec_pair_json(ps[0].0, ps[0].1)
    } else {
        spec_pairs_body(ps.drop_last()) + seq![','] + spec_pair_json(ps.last().0, ps.last().1)
    }
}

/// The JSON array of a pair list.
pub open spec fn spec_pairs_json(ps: Seq<(Seq<char>, Seq<char>)>) -> Seq<char> {
    seq!['['] + spec_pairs_body(ps) + seq![']']
}

/// The view of a pair list: the texts of the components.
pub open spec fn pairs_view(ps: Seq<Pair<String, String>>) -> Seq<(Seq<char>, Seq<char>)> {
    ps.map_values(|p: Pair<String, String>| (p.first@, p.second@))
}

/// Append the JSON escape of one character.
fn push_json_escaped_char(out: &mut String, c: char)
    ensures
        final(out)@ == old(out)@ + spec_json_escape_char(c),
{
    let ghost o0 = out@;
    if c == '"' {
        push_char(out, '\\');
        push_char(out, '"');
    } else if c == '\\' {
        push_char(out, '\\');
        push_char(out, '\\');
    } else if c == '\u{8}' {
        push_char(out, '\\');
        push_char(out, 'b');
    } else if c == '\u{c}' {
        push_char(out, '\\');
        push_char(out, 'f');
    } else if c == '\n' {
        push_char(out, '\\');
        push_char(out, 'n');
    } else if c == '\r' {
        push_char(out, '\\');
        push_char(out, 'r');
    } else if c == '\t' {
        push_char(out, '\\');
        push_char(out, 't');
    } else if (c as u32) < 0x20 {
        let x = c as u32;
        push_char(out, '\\');
        push_char(out, 'u');
        push_char(out, '0');
        push_char(out, '0');
        push_char(out, crate::hash::hex_char((x / 16) as u8));
        push_char(out, crate::hash::hex_char((x % 16) as u8));
    } else {
        push_char(out, c);
    }
    proof {
        assert(final(out)@ =~= o0 + spec_json_escape_char(c));
    }
}

/// Append the JSON string literal of `s`.
fn push_json_string(out: &mut String, s: &str)
    ensures
        final(out)@ == old(out)@ + spec_json_string(s@),
{
    let ghost o0 = out@;
    push_char(out, '"');
    let v = crate::strutil::chars_of(s);
    let n = v.len();
    for i in 0..n
        invariant
            n == v@.len(),
            v@ == s@,
            out@ == o0.push('"') + spec_json_escape(s@.take(i as int)),
    {
        push_json_escaped_char(out, v[i]);
        proof {
            assert(s@.take(i + 1).drop_last() =~= s@.take(i as int));
            assert(s@.take(i + 1).last() == s@[i as int]);
            assert((o0.push('"') + spec_json_escape(s@.take(i as int)))
                + spec_json_escape_char(s@[i as int]) =~= o0.push('"') + spec_json_escape(
                s@.take(i + 1),
            ));
        }
    }
    push_char(out, '"');
    proof {
        assert(s@.take(n as int) =~= s@);
        assert(out@ =~= o0 + spec_json_string(s@));
    }
}

/// Render a pair list as a JSON array of `first`/`second` objects.
pub fn pairs_to_json(pairs: &Vec<Pair<String, String>>) -> (r: String)
    ensures
        r@ == spec_pairs_json(pairs_view(pairs@)),
{
    let ghost ps = pairs_view(pairs@);
    let mut out = String::new();
    push_char(&mut out, '[');
    let n = pairs.len();
    for i in 0..n
        invariant
            n == pairs@.len(),
            ps == pairs_view(pairs@),
            ps.len() == n,
            out@ == seq!['['] + spec_pairs_body(ps.take(i as int)),
    {
        if i > 0 {
            push_char(&mut out, ',');
        }
        out.append("{\"first\":");
        push_json_string(&mut out, pairs[i].first.as_str());
        out.append(",\"second\":");
        push_json_string(&mut out, pairs[i].second.as_str());
        out.append("}");
        proof {
            assert(ps[i as int] == (pairs@[i as int].first@, pairs@[i as int].second@));
            assert(ps.take(i + 1).drop_last() =~= ps.take(i as int));
            assert(ps.take(i + 1).last() == ps[i as int]);
            assert(out@ =~= seq!['['] + spec_pairs_body(ps.take(i + 1)));
        }
    }
    push_char(&mut out, ']');
    proof {
        assert(ps.take(n as int) =~= ps);
        assert(out@ =~= spec_pairs_json(ps));
    }
    out
}

} // verus!
