//! The service's JSON wire format for the record types, as this crate's own
//! canonical encoding: fixed field order, no whitespace, `null` for absent
//! optional fields, and string escapes for quote, backslash, newline,
//! carriage return and tab. The decoder reads exactly this canonical form
//! and is proved to invert the encoder.

use vstd::prelude::*;

use crate::digits::{dec_chars, digit_char, digit_val, is_digit};
use crate::model::{Activity, ActivityV, Note, NoteV, Tag, TagV};

verus! {

/// The escape sequence a character is written as inside a JSON string.
pub open spec fn esc_char(c: char) -> Seq<char> {
    if c == '"' {
        seq!['\\', '"']
    } else if c == '\\' {
        seq!['\\', '\\']
    } else if c == '\n' {
        seq!['\\', 'n']
    } else if c == '\r' {
        seq!['\\', 'r']
    } else if c == '\t' {
        seq!['\\', 't']
    } else {
        seq![c]
    }
}

/// A whole string escaped, character by character.
pub open spec fn esc(s: Seq<char>) -> Seq<char>
    decreases s.len(),
{
    if s.len() == 0 {
        Seq::<char>::empty()
    } else {
        esc_char(s[0]) + esc(s.drop_first())
    }
}

pub proof fn lemma_esc_push(s: Seq<char>, c: char)
    ensures
        esc(s.push(c)) == esc(s) + esc_char(c),
    decreases s.len(),
{
    if s.len() == 0 {
        assert(s =~= Seq::<char>::empty());
        assert(esc(Seq::<char>::empty()) == Seq::<char>::empty());
        assert(s.push(c)[0] == c);
        assert(s.push(c).drop_first() =~= Seq::<char>::empty());
        assert(esc(s.push(c)) == esc_char(c) + Seq::<char>::empty());
        assert(esc(s.push(c)) =~= esc(s) + esc_char(c));
    } else {
        assert(s.push(c)[0] == s[0]);
        assert(s.push(c).drop_first() =~= s.drop_first().push(c));
        lemma_esc_push(s.drop_first(), c);
        assert(esc(s.push(c)) =~= esc(s) + esc_char(c));
    }
}

/// A string value in its JSON notation: quoted and escaped.
pub open spec fn ser_str(s: Seq<char>) -> Seq<char> {
    "\""@ + esc(s) + "\""@
}

/// An optional string value: `null` when absent.
pub open spec fn ser_opt_str(o: Option<Seq<char>>) -> Seq<char> {
    match o {
        Some(s) => ser_str(s),
        None => "null"@,
    }
}

/// An optional number: `null` when absent.
pub open spec fn ser_opt_num(o: Option<nat>) -> Seq<char> {
    match o {
        Some(n) => dec_chars(n),
        None => "null"@,
    }
}

/// A tag record in its JSON notation.
pub open spec fn ser_tag(t: TagV) -> Seq<char> {
    "{\"id\":"@ + dec_chars(t.id) + ",\"key\":"@ + ser_str(t.key) + ",\"label\":"@ + ser_str(
        t.label,
    ) + ",\"scope\":"@ + ser_str(t.scope) + ",\"spaceId\":"@ + ser_str(t.space_id) + "}"@
}

/// The comma-separated items of a tag array.
pub open spec fn ser_tags_items(ts: Seq<TagV>) -> Seq<char>
    decreases ts.len(),
{
    if ts.len() == 0 {
        Seq::<char>::empty()
    } else if ts.len() == 1 {
        ser_tag(ts[0])
    } else {
        ser_tag(ts[0]) + ","@ + ser_tags_items(ts.drop_first())
    }
}

/// A tag array in its JSON notation.
pub open spec fn ser_tags(ts: Seq<TagV>) -> Seq<char> {
    "["@ + ser_tags_items(ts) + "]"@
}

/// A note record in its JSON notation.
pub open spec fn ser_note(n: NoteV) -> Seq<char> {
    "{\"text\":"@ + ser_opt_str(n.text) + ",\"tags\":"@ + ser_tags(n.tags) + ",\"mentions\":"@
        + ser_tags(n.mentions) + "}"@
}

/// An activity record in its JSON notation.
pub open spec fn ser_activity(a: ActivityV) -> Seq<char> {
    "{\"id\":"@ + ser_str(a.id) + ",\"name\":"@ + ser_str(a.name) + ",\"color\":"@ + ser_str(
        a.color,
    ) + ",\"integration\":"@ + ser_opt_str(a.integration) + ",\"spaceId\":"@ + ser_str(a.space_id)
        + ",\"deviceSide\":"@ + ser_opt_num(a.device_side) + "}"@
}

/// Relies on `String::push`: appends exactly the one character.
#[verifier::external_body]
pub(crate) fn push_char(out: &mut String, c: char)
    ensures
        final(out)@ == old(out)@ + seq![c],
{
    out.push(c);
}

/// Append a string's characters in escaped form.
fn append_escaped(out: &mut String, s: &str)
    ensures
        final(out)@ == old(out)@ + esc(s@),
{
    let n: usize = s.unicode_len();
    let mut i: usize = 0;
    proof {
        assert(s@.subrange(0, 0) =~= Seq::<char>::empty());
    }
    while i < n
        invariant
            i <= n,
            n == s@.len(),
            out@ == old(out)@ + esc(s@.subrange(0, i as int)),
        decreases n - i,
    {
        let c = s.get_char(i);
        proof {
            assert(s@.subrange(0, i + 1) =~= s@.subrange(0, i as int).push(c));
            lemma_esc_push(s@.subrange(0, i as int), c);
            reveal_strlit("\\\"");
            reveal_strlit("\\\\");
            reveal_strlit("\\n");
            reveal_strlit("\\r");
            reveal_strlit("\\t");
        }
        if c == '"' {
            out.append("\\\"");
        } else if c == '\\' {
            out.append("\\\\");
        } else if c == '\n' {
            out.append("\\n");
        } else if c == '\r' {
            out.append("\\r");
        } else if c == '\t' {
            out.append("\\t");
        } else {
            push_char(out, c);
        }
        proof {
            assert(out@ =~= old(out)@ + esc(s@.subrange(0, i + 1)));
        }
        i = i + 1;
    }
    proof {
        assert(s@.subrange(0, n as int) =~= s@);
    }
}

/// Append a string value in its JSON notation.
pub fn append_json_string(out: &mut String, s: &str)
    ensures
        final(out)@ == old(out)@ + ser_str(s@),
{
    out.append("\"");
    append_escaped(out, s);
    out.append("\"");
    proof {
        assert(out@ =~= old(out)@ + ser_str(s@));
    }
}

/// Append an optional string value, `null` when absent.
fn append_opt_string(out: &mut String, o: &Option<String>)
    ensures
        final(out)@ == old(out)@ + ser_opt_str(
            match o {
                Some(s) => Some(s@),
                None => None,
            },
        ),
{
    match o {
        Some(s) => append_json_string(out, s.as_str()),
        None => out.append("null"),
    }
}

/// Append a tag record in its JSON notation.
pub fn append_tag(out: &mut String, t: &Tag)
    ensures
        final(out)@ == old(out)@ + ser_tag(t@),
{
    out.append("{\"id\":");
    crate::digits::append_u64(out, t.id);
    out.append(",\"key\":");
    append_json_string(out, t.key.as_str());
    out.append(",\"label\":");
    append_json_string(out, t.label.as_str());
    out.append(",\"scope\":");
    append_json_string(out, t.scope.as_str());
    out.append(",\"spaceId\":");
    append_json_string(out, t.space_id.as_str());
    out.append("}");
    proof {
        assert(out@ =~= old(out)@ + ser_tag(t@));
    }
}

proof fn lemma_ser_tags_items_snoc(ts: Seq<TagV>, t: TagV)
    requires
        ts.len() >= 1,
    ensures
        ser_tags_items(ts.push(t)) == ser_tags_items(ts) + ","@ + ser_tag(t),
    decreases ts.len(),
{
    if ts.len() == 1 {
        assert(ts.push(t)[0] == ts[0]);
        assert(ts.push(t).drop_first() =~= seq![t]);
        assert(ser_tags_items(seq![t]) == ser_tag(t));
        assert(ser_tags_items(ts.push(t)) =~= ser_tags_items(ts) + ","@ + ser_tag(t));
    } else {
        assert(ts.push(t)[0] == ts[0]);
        assert(ts.push(t).drop_first() =~= ts.drop_first().push(t));
        lemma_ser_tags_items_snoc(ts.drop_first(), t);
        assert(ser_tags_items(ts.push(t)) =~= ser_tags_items(ts) + ","@ + ser_tag(t));
    }
}

/// Append a tag array in its JSON notation.
pub fn append_tags(out: &mut String, ts: &Vec<Tag>)
    ensures
        final(out)@ == old(out)@ + ser_tags(ts@.map_values(|t: Tag| t@)),
{
    let ghost tv = ts@.map_values(|t: Tag| t@);
    out.append("[");
    let mut i: usize = 0;
    while i < ts.len()
        invariant
            i <= ts.len(),
            tv == ts@.map_values(|t: Tag| t@),
            out@ == old(out)@ + "["@ + ser_tags_items(tv.subrange(0, i as int)),
        decreases ts.len() - i,
    {
        if i > 0 {
            out.append(",");
        }
        append_tag(out, &ts[i]);
        proof {
            assert(tv.subrange(0, i + 1) =~= tv.subrange(0, i as int).push(tv[i as int]));
            if i > 0 {
                lemma_ser_tags_items_snoc(tv.subrange(0, i as int), tv[i as int]);
            } else {
                assert(tv.subrange(0, 1) =~= seq![tv[0]]);
            }
            assert(out@ =~= old(out)@ + "["@ + ser_tags_items(tv.subrange(0, i + 1)));
        }
        i = i + 1;
    }
    out.append("]");
    proof {
        assert(tv.subrange(0, tv.len() as int) =~= tv);
        assert(out@ =~= old(out)@ + ser_tags(tv));
    }
}

/// A tag record serialized to its JSON text.
pub fn serialize_tag(t: &Tag) -> (r: String)
    ensures
        r@ == ser_tag(t@),
{
    let mut out = String::new();
    append_tag(&mut out, t);
    proof {
        assert(out@ =~= ser_tag(t@));
    }
    out
}

/// A note record serialized to its JSON text.
pub fn serialize_note(n: &Note) -> (r: String)
    ensures
        r@ == ser_note(n@),
{
    let mut out = String::new();
    out.append("{\"text\":");
    append_opt_string(&mut out, &n.text);
    out.append(",\"tags\":");
    append_tags(&mut out, &n.tags);
    out.append(",\"mentions\":");
    append_tags(&mut out, &n.mentions);
    out.append("}");
    proof {
        assert(out@ =~= ser_note(n@));
    }
    out
}

/// An activity record serialized to its JSON text.
pub fn serialize_activity(a: &Activity) -> (r: String)
    ensures
        r@ == ser_activity(a@),
{
    let mut out = String::new();
    out.append("{\"id\":");
    append_json_string(&mut out, a.id.as_str());
    out.append(",\"name\":");
    append_json_string(&mut out, a.name.as_str());
    out.append(",\"color\":");
    append_json_string(&mut out, a.color.as_str());
    out.append(",\"integration\":");
    append_opt_string(&mut out, &a.integration);
    out.append(",\"spaceId\":");
    append_json_string(&mut out, a.space_id.as_str());
    out.append(",\"deviceSide\":");
    match a.device_side {
        Some(n) => crate::digits::append_u64(&mut out, n),
        None => out.append("null"),
    }
    out.append("}");
    proof {
        assert(out@ =~= ser_activity(a@));
    }
    out
}

} // verus!
