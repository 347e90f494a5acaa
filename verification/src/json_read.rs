//! Reading the canonical JSON encoding back: specification-level parsers,
//! the proof that they invert the encoder, and the executable decoder.

use vstd::prelude::*;

use crate::digits::{dec_chars, digit_val, is_digit, lemma_dec_chars_digits};
use crate::json::{esc, esc_char, push_char, ser_activity, ser_note, ser_opt_num, ser_opt_str, ser_str,
    ser_tag, ser_tags, ser_tags_items};
use crate::model::{Activity, ActivityV, Note, NoteV, Tag, TagV};

verus! {

/// The character an escape letter stands for.
pub open spec fn unesc_char(c: char) -> Option<char> {
    if c == '"' {
        Some('"')
    } else if c == '\\' {
        Some('\\')
    } else if c == 'n' {
        Some('\n')
    } else if c == 'r' {
        Some('\r')
    } else if c == 't' {
        Some('\t')
    } else {
        None
    }
}

/// Consume an expected literal prefix.
pub open spec fn p_lit(s: Seq<char>, lit: Seq<char>) -> Option<Seq<char>> {
    if s.len() >= lit.len() && s.subrange(0, lit.len() as int) == lit {
        Some(s.skip(lit.len() as int))
    } else {
        None
    }
}

/// Consume the body of a string up to and including its closing quote.
pub open spec fn p_str_body(s: Seq<char>) -> Option<(Seq<char>, Seq<char>)>
    decreases s.len(),
{
    if s.len() == 0 {
        None
    } else if s[0] == '"' {
        Some((Seq::<char>::empty(), s.drop_first()))
    } else if s[0] == '\\' {
        if s.len() >= 2 {
            match unesc_char(s[1]) {
                Some(u) => match p_str_body(s.skip(2)) {
                    Some(p) => Some((seq![u] + p.0, p.1)),
                    None => None,
                },
                None => None,
            }
        } else {
            None
        }
    } else {
        match p_str_body(s.drop_first()) {
            Some(p) => Some((seq![s[0]] + p.0, p.1)),
            None => None,
        }
    }
}

/// Consume a quoted, escaped string value.
pub open spec fn p_str(s: Seq<char>) -> Option<(Seq<char>, Seq<char>)> {
    if s.len() >= 1 && s[0] == '"' {
        p_str_body(s.drop_first())
    } else {
        None
    }
}

/// Accumulate a run of decimal digits.
pub open spec fn p_num_rec(s: Seq<char>, acc: nat) -> (nat, Seq<char>)
    decreases s.len(),
{
    if s.len() > 0 && is_digit(s[0]) {
        p_num_rec(s.drop_first(), acc * 10 + digit_val(s[0]))
    } else {
        (acc, s)
    }
}

/// Consume a number; it must start with a digit and fit in a `u64`.
pub open spec fn p_num(s: Seq<char>) -> Option<(nat, Seq<char>)> {
    if s.len() > 0 && is_digit(s[0]) {
        let (v, rest) = p_num_rec(s, 0);
        if v <= u64::MAX {
            Some((v, rest))
        } else {
            None
        }
    } else {
        None
    }
}

/// Consume a string value or `null`.
pub open spec fn p_opt_str(s: Seq<char>) -> Option<(Option<Seq<char>>, Seq<char>)> {
    if s.len() >= 1 && s[0] == '"' {
        match p_str(s) {
            Some(p) => Some((Some(p.0), p.1)),
            None => None,
        }
    } else {
        match p_lit(s, "null"@) {
            Some(r) => Some((None, r)),
            None => None,
        }
    }
}

/// Consume a number or `null`.
pub open spec fn p_opt_num(s: Seq<char>) -> Option<(Option<nat>, Seq<char>)> {
    if s.len() >= 1 && is_digit(s[0]) {
        match p_num(s) {
            Some(p) => Some((Some(p.0), p.1)),
            None => None,
        }
    } else {
        match p_lit(s, "null"@) {
            Some(r) => Some((None, r)),
            None => None,
        }
    }
}

/// Consume a tag record.
pub open spec fn p_tag(s: Seq<char>) -> Option<(TagV, Seq<char>)> {
    match p_lit(s, "{\"id\":"@) {
        None => None,
        Some(r1) => match p_num(r1) {
            None => None,
            Some((id, r2)) => match p_lit(r2, ",\"key\":"@) {
                None => None,
                Some(r3) => match p_str(r3) {
                    None => None,
                    Some((key, r4)) => match p_lit(r4, ",\"label\":"@) {
                        None => None,
                        Some(r5) => match p_str(r5) {
                            None => None,
                            Some((label, r6)) => match p_lit(r6, ",\"scope\":"@) {
                                None => None,
                                Some(r7) => match p_str(r7) {
                                    None => None,
                                    Some((scope, r8)) => match p_lit(r8, ",\"spaceId\":"@) {
                                        None => None,
                                        Some(r9) => match p_str(r9) {
                                            None => None,
                                            Some((space_id, r10)) => match p_lit(r10, "}"@) {
                                                None => None,
                                                Some(r11) => Some(
                                                    (
                                                        TagV { id, key, label, scope, space_id },
                                                        r11,
                                                    ),
                                                ),
                                            },
                                        },
                                    },
                                },
                            },
                        },
                    },
                },
            },
        },
    }
}

/// Consume the items of a non-empty tag array, up to and including the
/// closing bracket.
pub open spec fn p_tags_items(s: Seq<char>) -> Option<(Seq<TagV>, Seq<char>)>
    decreases s.len(),
{
    match p_tag(s) {
        None => None,
        Some((t, r)) => if r.len() > 0 && r[0] == ',' {
            let r2 = r.drop_first();
            if r2.len() < s.len() {
                match p_tags_items(r2) {
                    Some(p) => Some((seq![t] + p.0, p.1)),
                    None => None,
                }
            } else {
                None
            }
        } else if r.len() > 0 && r[0] == ']' {
            Some((seq![t], r.drop_first()))
        } else {
            None
        },
    }
}

/// Consume a tag array.
pub open spec fn p_tags(s: Seq<char>) -> Option<(Seq<TagV>, Seq<char>)> {
    match p_lit(s, "["@) {
        None => None,
        Some(r) => if r.len() > 0 && r[0] == ']' {
            Some((Seq::<TagV>::empty(), r.drop_first()))
        } else {
            p_tags_items(r)
        },
    }
}

/// Consume a note record.
pub open spec fn p_note(s: Seq<char>) -> Option<(NoteV, Seq<char>)> {
    match p_lit(s, "{\"text\":"@) {
        None => None,
        Some(r1) => match p_opt_str(r1) {
            None => None,
            Some((text, r2)) => match p_lit(r2, ",\"tags\":"@) {
                None => None,
                Some(r3) => match p_tags(r3) {
                    None => None,
                    Some((tags, r4)) => match p_lit(r4, ",\"mentions\":"@) {
                        None => None,
                        Some(r5) => match p_tags(r5) {
                            None => None,
                            Some((mentions, r6)) => match p_lit(r6, "}"@) {
                                None => None,
                                Some(r7) => Some((NoteV { text, tags, mentions }, r7)),
                            },
                        },
                    },
                },
            },
        },
    }
}

/// Consume an activity record.
pub open spec fn p_activity(s: Seq<char>) -> Option<(ActivityV, Seq<char>)> {
    match p_lit(s, "{\"id\":"@) {
        None => None,
        Some(r1) => match p_str(r1) {
            None => None,
            Some((id, r2)) => match p_lit(r2, ",\"name\":"@) {
                None => None,
                Some(r3) => match p_str(r3) {
                    None => None,
                    Some((name, r4)) => match p_lit(r4, ",\"color\":"@) {
                        None => None,
                        Some(r5) => match p_str(r5) {
                            None => None,
                            Some((color, r6)) => match p_lit(r6, ",\"integration\":"@) {
                                None => None,
                                Some(r7) => match p_opt_str(r7) {
                                    None => None,
                                    Some((integration, r8)) => match p_lit(r8, ",\"spaceId\":"@) {
                                        None => None,
                                        Some(r9) => match p_str(r9) {
                                            None => None,
                                            Some((space_id, r10)) => match p_lit(
                                                r10,
                                                ",\"deviceSide\":"@,
                                            ) {
                                                None => None,
                                                Some(r11) => match p_opt_num(r11) {
                                                    None => None,
                                                    Some((device_side, r12)) => match p_lit(
                                                        r12,
                                                        "}"@,
                                                    ) {
                                                        None => None,
                                                        Some(r13) => Some(
                                                            (
                                                                ActivityV {
                                                                    id,
                                                                    name,
                                                                    color,
                                                                    integration,
                                                                    space_id,
                                                                    device_side,
                                                                },
                                                                r13,
                                                            ),
                                                        ),
                                                    },
                                                },
                                            },
                                        },
                                    },
                                },
                            },
                        },
                    },
                },
            },
        },
    }
}

/// What a whole text decodes to as a tag record: it must be consumed exactly.
pub open spec fn parse_tag_chars(s: Seq<char>) -> Option<TagV> {
    match p_tag(s) {
        Some((t, r)) => if r.len() == 0 {
            Some(t)
        } else {
            None
        },
        None => None,
    }
}

/// What a whole text decodes to as a note record.
pub open spec fn parse_note_chars(s: Seq<char>) -> Option<NoteV> {
    match p_note(s) {
        Some((n, r)) => if r.len() == 0 {
            Some(n)
        } else {
            None
        },
        None => None,
    }
}

/// What a whole text decodes to as an activity record.
pub open spec fn parse_activity_chars(s: Seq<char>) -> Option<ActivityV> {
    match p_activity(s) {
        Some((a, r)) => if r.len() == 0 {
            Some(a)
        } else {
            None
        },
        None => None,
    }
}

proof fn lemma_p_lit(lit: Seq<char>, rest: Seq<char>)
    ensures
        p_lit(lit + rest, lit) == Some(rest),
{
    assert((lit + rest).subrange(0, lit.len() as int) =~= lit);
    assert((lit + rest).skip(lit.len() as int) =~= rest);
}

proof fn lemma_p_str_body(v: Seq<char>, rest: Seq<char>)
    ensures
        p_str_body(esc(v) + seq!['"'] + rest) == Some((v, rest)),
    decreases v.len(),
{
    if v.len() == 0 {
        assert(esc(v) + seq!['"'] + rest =~= seq!['"'] + rest);
        let s = seq!['"'] + rest;
        assert(s[0] == '"');
        assert(s.drop_first() =~= rest);
    } else {
        let c = v[0];
        let v1 = v.drop_first();
        lemma_p_str_body(v1, rest);
        let s = esc(v) + seq!['"'] + rest;
        let s1 = esc(v1) + seq!['"'] + rest;
        if c == '"' || c == '\\' || c == '\n' || c == '\r' || c == '\t' {
            let l = if c == '"' {
                '"'
            } else if c == '\\' {
                '\\'
            } else if c == '\n' {
                'n'
            } else if c == '\r' {
                'r'
            } else {
                't'
            };
            assert(esc_char(c) =~= seq!['\\', l]);
            assert(s =~= seq!['\\', l] + s1);
            assert(s[0] == '\\' && s[1] == l);
            assert(unesc_char(l) == Some(c));
            assert(s.skip(2) =~= s1);
            assert(seq![c] + v1 =~= v);
        } else {
            assert(esc_char(c) =~= seq![c]);
            assert(s =~= seq![c] + s1);
            assert(s[0] == c);
            assert(c != '"' && c != '\\');
            assert(s.drop_first() =~= s1);
            assert(seq![c] + v1 =~= v);
        }
    }
}

proof fn lemma_p_str(v: Seq<char>, rest: Seq<char>)
    ensures
        p_str(ser_str(v) + rest) == Some((v, rest)),
{
    reveal_strlit("\"");
    let s = ser_str(v) + rest;
    assert(s[0] == '"');
    assert(s.len() >= 1);
    lemma_p_str_body(v, rest);
    assert(s.drop_first() =~= esc(v) + seq!['"'] + rest);
}

/// The value a digit run accumulates to, starting from `acc`.
spec fn num_val(ds: Seq<char>, acc: nat) -> nat
    decreases ds.len(),
{
    if ds.len() == 0 {
        acc
    } else {
        num_val(ds.drop_first(), acc * 10 + digit_val(ds[0]))
    }
}

proof fn lemma_p_num_rec_append(ds: Seq<char>, rest: Seq<char>, acc: nat)
    requires
        forall|i: int| 0 <= i < ds.len() ==> is_digit(#[trigger] ds[i]),
        rest.len() == 0 || !is_digit(rest[0]),
    ensures
        p_num_rec(ds + rest, acc) == (num_val(ds, acc), rest),
    decreases ds.len(),
{
    let s = ds + rest;
    if ds.len() == 0 {
        assert(s =~= rest);
    } else {
        assert(s[0] == ds[0]);
        assert(s.drop_first() =~= ds.drop_first() + rest);
        lemma_p_num_rec_append(ds.drop_first(), rest, acc * 10 + digit_val(ds[0]));
    }
}

proof fn lemma_num_val_snoc(ds: Seq<char>, c: char, acc: nat)
    ensures
        num_val(ds.push(c), acc) == num_val(ds, acc) * 10 + digit_val(c),
    decreases ds.len(),
{
    if ds.len() == 0 {
        assert(ds.push(c)[0] == c);
        assert(ds.push(c).drop_first() =~= Seq::<char>::empty());
        assert(num_val(ds, acc) == acc);
        assert(num_val(ds.push(c), acc) == num_val(Seq::<char>::empty(), acc * 10 + digit_val(c)));
        assert(num_val(Seq::<char>::empty(), acc * 10 + digit_val(c)) == acc * 10 + digit_val(c));
    } else {
        assert(ds.push(c)[0] == ds[0]);
        assert(ds.push(c).drop_first() =~= ds.drop_first().push(c));
        lemma_num_val_snoc(ds.drop_first(), c, acc * 10 + digit_val(ds[0]));
        assert(num_val(ds, acc) == num_val(ds.drop_first(), acc * 10 + digit_val(ds[0])));
        assert(num_val(ds.push(c), acc) == num_val(ds.drop_first().push(c), acc * 10 + digit_val(
            ds[0],
        )));
    }
}

proof fn lemma_num_val_dec(n: nat)
    ensures
        num_val(dec_chars(n), 0) == n,
    decreases n,
{
    if n < 10 {
        assert(dec_chars(n) =~= seq![crate::digits::digit_char(n)]);
        assert(dec_chars(n).drop_first() =~= Seq::<char>::empty());
        crate::digits::lemma_digit_char_val(n);
        let d = digit_val(dec_chars(n)[0]);
        assert(num_val(Seq::<char>::empty(), 0 * 10 + d) == d);
        assert(num_val(dec_chars(n), 0) == num_val(dec_chars(n).drop_first(), 0 * 10 + d));
    } else {
        lemma_num_val_dec(n / 10);
        lemma_num_val_snoc(dec_chars(n / 10), crate::digits::digit_char(n % 10), 0);
        crate::digits::lemma_digit_char_val(n % 10);
    }
}

proof fn lemma_p_num_dec(n: nat, rest: Seq<char>)
    requires
        n <= u64::MAX,
        rest.len() == 0 || !is_digit(rest[0]),
    ensures
        p_num(dec_chars(n) + rest) == Some((n, rest)),
{
    lemma_dec_chars_digits(n);
    let s = dec_chars(n) + rest;
    assert(s[0] == dec_chars(n)[0]);
    lemma_p_num_rec_append(dec_chars(n), rest, 0);
    lemma_num_val_dec(n);
}

proof fn lemma_p_opt_str(o: Option<Seq<char>>, rest: Seq<char>)
    ensures
        p_opt_str(ser_opt_str(o) + rest) == Some((o, rest)),
{
    match o {
        Some(v) => {
            reveal_strlit("\"");
            let s = ser_opt_str(o) + rest;
            assert(s =~= ser_str(v) + rest);
            assert(s[0] == '"');
            lemma_p_str(v, rest);
        },
        None => {
            reveal_strlit("null");
            let s = ser_opt_str(o) + rest;
            assert(s =~= "null"@ + rest);
            assert(s[0] == 'n');
            assert(s[0] != '"');
            lemma_p_lit("null"@, rest);
        },
    }
}

proof fn lemma_p_opt_num(o: Option<nat>, rest: Seq<char>)
    requires
        o matches Some(n) ==> n <= u64::MAX,
        rest.len() == 0 || !is_digit(rest[0]),
    ensures
        p_opt_num(ser_opt_num(o) + rest) == Some((o, rest)),
{
    match o {
        Some(n) => {
            let s = ser_opt_num(o) + rest;
            assert(s =~= dec_chars(n) + rest);
            lemma_dec_chars_digits(n);
            assert(s[0] == dec_chars(n)[0]);
            lemma_p_num_dec(n, rest);
        },
        None => {
            reveal_strlit("null");
            let s = ser_opt_num(o) + rest;
            assert(s =~= "null"@ + rest);
            assert(s[0] == 'n');
            assert(!is_digit('n'));
            lemma_p_lit("null"@, rest);
        },
    }
}

#[verifier::rlimit(100)]
proof fn lemma_p_tag(t: TagV, rest: Seq<char>)
    requires
        t.id <= u64::MAX,
    ensures
        p_tag(ser_tag(t) + rest) == Some((t, rest)),
{
    let s10 = "}"@ + rest;
    let s9 = ser_str(t.space_id) + s10;
    let s8 = ",\"spaceId\":"@ + s9;
    let s7 = ser_str(t.scope) + s8;
    let s6 = ",\"scope\":"@ + s7;
    let s5 = ser_str(t.label) + s6;
    let s4 = ",\"label\":"@ + s5;
    let s3 = ser_str(t.key) + s4;
    let s2 = ",\"key\":"@ + s3;
    let s1 = dec_chars(t.id) + s2;
    let s0 = "{\"id\":"@ + s1;
    assert(ser_tag(t) + rest =~= s0);
    lemma_p_lit("{\"id\":"@, s1);
    reveal_strlit(",\"key\":");
    assert(s2[0] == ',');
    lemma_p_num_dec(t.id, s2);
    lemma_p_lit(",\"key\":"@, s3);
    lemma_p_str(t.key, s4);
    lemma_p_lit(",\"label\":"@, s5);
    lemma_p_str(t.label, s6);
    lemma_p_lit(",\"scope\":"@, s7);
    lemma_p_str(t.scope, s8);
    lemma_p_lit(",\"spaceId\":"@, s9);
    lemma_p_str(t.space_id, s10);
    lemma_p_lit("}"@, rest);
}

#[verifier::rlimit(60)]
proof fn lemma_p_tags_items(ts: Seq<TagV>, rest: Seq<char>)
    requires
        ts.len() >= 1,
        forall|i: int| 0 <= i < ts.len() ==> #[trigger] ts[i].id <= u64::MAX,
    ensures
        p_tags_items(ser_tags_items(ts) + "]"@ + rest) == Some((ts, rest)),
    decreases ts.len(),
{
    reveal_strlit("]");
    reveal_strlit(",");
    if ts.len() == 1 {
        let s = ser_tags_items(ts) + "]"@ + rest;
        let r = "]"@ + rest;
        assert(s =~= ser_tag(ts[0]) + r);
        lemma_p_tag(ts[0], r);
        assert(r[0] == ']');
        assert(r.drop_first() =~= rest);
        assert(seq![ts[0]] =~= ts);
    } else {
        let tail = ts.drop_first();
        let s = ser_tags_items(ts) + "]"@ + rest;
        let r2 = ser_tags_items(tail) + "]"@ + rest;
        let r = ","@ + r2;
        assert(ser_tags_items(ts) == ser_tag(ts[0]) + ","@ + ser_tags_items(tail));
        assert(s =~= ser_tag(ts[0]) + r);
        lemma_p_tag(ts[0], r);
        assert(r[0] == ',');
        assert(r.drop_first() =~= r2);
        assert(r2.len() < s.len());
        lemma_p_tags_items(tail, rest);
        assert(seq![ts[0]] + tail =~= ts);
    }
}

proof fn lemma_p_tags(ts: Seq<TagV>, rest: Seq<char>)
    requires
        forall|i: int| 0 <= i < ts.len() ==> #[trigger] ts[i].id <= u64::MAX,
    ensures
        p_tags(ser_tags(ts) + rest) == Some((ts, rest)),
{
    reveal_strlit("[");
    reveal_strlit("]");
    reveal_strlit("{\"id\":");
    let s = ser_tags(ts) + rest;
    if ts.len() == 0 {
        let r = "]"@ + rest;
        assert(ser_tags_items(ts) =~= Seq::<char>::empty());
        assert(s =~= "["@ + r);
        lemma_p_lit("["@, r);
        assert(r[0] == ']');
        assert(r.drop_first() =~= rest);
        assert(Seq::<TagV>::empty() =~= ts);
    } else {
        let r = ser_tags_items(ts) + "]"@ + rest;
        assert(s =~= "["@ + r);
        lemma_p_lit("["@, r);
        if ts.len() == 1 {
            assert(ser_tags_items(ts) == ser_tag(ts[0]));
        }
        assert(ser_tag(ts[0]).len() >= "{\"id\":"@.len()) by {
            assert(ser_tag(ts[0]) == "{\"id\":"@ + (dec_chars(ts[0].id) + ",\"key\":"@ + ser_str(
                ts[0].key,
            ) + ",\"label\":"@ + ser_str(ts[0].label) + ",\"scope\":"@ + ser_str(ts[0].scope)
                + ",\"spaceId\":"@ + ser_str(ts[0].space_id) + "}"@));
        }
        assert(r[0] == ser_tag(ts[0])[0]);
        assert(ser_tag(ts[0])[0] == '{');
        assert(r[0] != ']');
        lemma_p_tags_items(ts, rest);
    }
}

proof fn seq_assoc<T>(a: Seq<T>, b: Seq<T>, c: Seq<T>)
    ensures
        (a + b) + c == a + (b + c),
{
    assert((a + b) + c =~= a + (b + c));
}

/// Every tag id a note's view can carry, bounded as the machine type is.
pub open spec fn note_ids_bounded(n: NoteV) -> bool {
    &&& forall|i: int| 0 <= i < n.tags.len() ==> #[trigger] n.tags[i].id <= u64::MAX
    &&& forall|i: int| 0 <= i < n.mentions.len() ==> #[trigger] n.mentions[i].id <= u64::MAX
}

proof fn lemma_p_note(n: NoteV, rest: Seq<char>)
    requires
        note_ids_bounded(n),
    ensures
        p_note(ser_note(n) + rest) == Some((n, rest)),
{
    let s6 = "}"@ + rest;
    let s5 = ser_tags(n.mentions) + s6;
    let s4 = ",\"mentions\":"@ + s5;
    let s3 = ser_tags(n.tags) + s4;
    let s2 = ",\"tags\":"@ + s3;
    let s1 = ser_opt_str(n.text) + s2;
    let p1 = "{\"text\":"@ + ser_opt_str(n.text);
    let p2 = p1 + ",\"tags\":"@;
    let p3 = p2 + ser_tags(n.tags);
    let p4 = p3 + ",\"mentions\":"@;
    let p5 = p4 + ser_tags(n.mentions);
    assert(ser_note(n) == p5 + "}"@);
    seq_assoc(p5, "}"@, rest);
    seq_assoc(p4, ser_tags(n.mentions), s6);
    seq_assoc(p3, ",\"mentions\":"@, s5);
    seq_assoc(p2, ser_tags(n.tags), s4);
    seq_assoc(p1, ",\"tags\":"@, s3);
    seq_assoc("{\"text\":"@, ser_opt_str(n.text), s2);
    assert(ser_note(n) + rest == "{\"text\":"@ + s1);
    lemma_p_lit("{\"text\":"@, s1);
    lemma_p_opt_str(n.text, s2);
    lemma_p_lit(",\"tags\":"@, s3);
    lemma_p_tags(n.tags, s4);
    lemma_p_lit(",\"mentions\":"@, s5);
    lemma_p_tags(n.mentions, s6);
    lemma_p_lit("}"@, rest);
    assert(p_note("{\"text\":"@ + s1) == Some((n, rest)));
}

spec fn act_s12(a: ActivityV, rest: Seq<char>) -> Seq<char> {
    "}"@ + rest
}

spec fn act_s11(a: ActivityV, rest: Seq<char>) -> Seq<char> {
    ser_opt_num(a.device_side) + act_s12(a, rest)
}

spec fn act_s10(a: ActivityV, rest: Seq<char>) -> Seq<char> {
    ",\"deviceSide\":"@ + act_s11(a, rest)
}

spec fn act_s9(a: ActivityV, rest: Seq<char>) -> Seq<char> {
    ser_str(a.space_id) + act_s10(a, rest)
}

spec fn act_s8(a: ActivityV, rest: Seq<char>) -> Seq<char> {
    ",\"spaceId\":"@ + act_s9(a, rest)
}

spec fn act_s7(a: ActivityV, rest: Seq<char>) -> Seq<char> {
    ser_opt_str(a.integration) + act_s8(a, rest)
}

spec fn act_s6(a: ActivityV, rest: Seq<char>) -> Seq<char> {
    ",\"integration\":"@ + act_s7(a, rest)
}

spec fn act_s5(a: ActivityV, rest: Seq<char>) -> Seq<char> {
    ser_str(a.color) + act_s6(a, rest)
}

spec fn act_s4(a: ActivityV, rest: Seq<char>) -> Seq<char> {
    ",\"color\":"@ + act_s5(a, rest)
}

spec fn act_s3(a: ActivityV, rest: Seq<char>) -> Seq<char> {
    ser_str(a.name) + act_s4(a, rest)
}

spec fn act_s2(a: ActivityV, rest: Seq<char>) -> Seq<char> {
    ",\"name\":"@ + act_s3(a, rest)
}

spec fn act_s1(a: ActivityV, rest: Seq<char>) -> Seq<char> {
    ser_str(a.id) + act_s2(a, rest)
}

proof fn lemma_act_assoc(a: ActivityV, rest: Seq<char>)
    ensures
        ser_activity(a) + rest == "{\"id\":"@ + act_s1(a, rest),
{
    let p1 = "{\"id\":"@ + ser_str(a.id);
    let p2 = p1 + ",\"name\":"@;
    let p3 = p2 + ser_str(a.name);
    let p4 = p3 + ",\"color\":"@;
    let p5 = p4 + ser_str(a.color);
    let p6 = p5 + ",\"integration\":"@;
    let p7 = p6 + ser_opt_str(a.integration);
    let p8 = p7 + ",\"spaceId\":"@;
    let p9 = p8 + ser_str(a.space_id);
    let p10 = p9 + ",\"deviceSide\":"@;
    let p11 = p10 + ser_opt_num(a.device_side);
    assert(ser_activity(a) == p11 + "}"@);
    seq_assoc(p11, "}"@, rest);
    seq_assoc(p10, ser_opt_num(a.device_side), act_s12(a, rest));
    seq_assoc(p9, ",\"deviceSide\":"@, act_s11(a, rest));
    seq_assoc(p8, ser_str(a.space_id), act_s10(a, rest));
    seq_assoc(p7, ",\"spaceId\":"@, act_s9(a, rest));
    seq_assoc(p6, ser_opt_str(a.integration), act_s8(a, rest));
    seq_assoc(p5, ",\"integration\":"@, act_s7(a, rest));
    seq_assoc(p4, ser_str(a.color), act_s6(a, rest));
    seq_assoc(p3, ",\"color\":"@, act_s5(a, rest));
    seq_assoc(p2, ser_str(a.name), act_s4(a, rest));
    seq_assoc(p1, ",\"name\":"@, act_s3(a, rest));
    seq_assoc("{\"id\":"@, ser_str(a.id), act_s2(a, rest));
}

proof fn lemma_p_activity_front(a: ActivityV, rest: Seq<char>)
    ensures
        p_lit("{\"id\":"@ + act_s1(a, rest), "{\"id\":"@) == Some(act_s1(a, rest)),
        p_str(act_s1(a, rest)) == Some((a.id, act_s2(a, rest))),
        p_lit(act_s2(a, rest), ",\"name\":"@) == Some(act_s3(a, rest)),
        p_str(act_s3(a, rest)) == Some((a.name, act_s4(a, rest))),
        p_lit(act_s4(a, rest), ",\"color\":"@) == Some(act_s5(a, rest)),
        p_str(act_s5(a, rest)) == Some((a.color, act_s6(a, rest))),
{
    lemma_p_lit("{\"id\":"@, act_s1(a, rest));
    lemma_p_str(a.id, act_s2(a, rest));
    lemma_p_lit(",\"name\":"@, act_s3(a, rest));
    lemma_p_str(a.name, act_s4(a, rest));
    lemma_p_lit(",\"color\":"@, act_s5(a, rest));
    lemma_p_str(a.color, act_s6(a, rest));
}

proof fn lemma_p_activity_back(a: ActivityV, rest: Seq<char>)
    requires
        a.device_side matches Some(n) ==> n <= u64::MAX,
    ensures
        p_lit(act_s6(a, rest), ",\"integration\":"@) == Some(act_s7(a, rest)),
        p_opt_str(act_s7(a, rest)) == Some((a.integration, act_s8(a, rest))),
        p_lit(act_s8(a, rest), ",\"spaceId\":"@) == Some(act_s9(a, rest)),
        p_str(act_s9(a, rest)) == Some((a.space_id, act_s10(a, rest))),
        p_lit(act_s10(a, rest), ",\"deviceSide\":"@) == Some(act_s11(a, rest)),
        p_opt_num(act_s11(a, rest)) == Some((a.device_side, act_s12(a, rest))),
        p_lit(act_s12(a, rest), "}"@) == Some(rest),
{
    lemma_p_lit(",\"integration\":"@, act_s7(a, rest));
    lemma_p_opt_str(a.integration, act_s8(a, rest));
    lemma_p_lit(",\"spaceId\":"@, act_s9(a, rest));
    lemma_p_str(a.space_id, act_s10(a, rest));
    lemma_p_lit(",\"deviceSide\":"@, act_s11(a, rest));
    reveal_strlit("}");
    assert(act_s12(a, rest)[0] == '}');
    assert(!is_digit('}'));
    lemma_p_opt_num(a.device_side, act_s12(a, rest));
    lemma_p_lit("}"@, rest);
}

proof fn lemma_p_activity(a: ActivityV, rest: Seq<char>)
    requires
        a.device_side matches Some(n) ==> n <= u64::MAX,
    ensures
        p_activity(ser_activity(a) + rest) == Some((a, rest)),
{
    lemma_act_assoc(a, rest);
    lemma_p_activity_front(a, rest);
    lemma_p_activity_back(a, rest);
    assert(p_activity("{\"id\":"@ + act_s1(a, rest)) == Some((a, rest)));
}

/// Round trip: decoding the encoding of any tag record (its id within the
/// machine type, as every `Tag`'s is) gives back the identical record.
pub proof fn lemma_tag_round_trip(t: TagV)
    requires
        t.id <= u64::MAX,
    ensures
        parse_tag_chars(ser_tag(t)) == Some(t),
{
    lemma_p_tag(t, Seq::<char>::empty());
    assert(ser_tag(t) + Seq::<char>::empty() =~= ser_tag(t));
}

/// Round trip: decoding the encoding of any note record gives back the
/// identical record, optional fields included, absent kept distinct from
/// empty.
pub proof fn lemma_note_round_trip(n: NoteV)
    requires
        note_ids_bounded(n),
    ensures
        parse_note_chars(ser_note(n)) == Some(n),
{
    lemma_p_note(n, Seq::<char>::empty());
    assert(ser_note(n) + Seq::<char>::empty() =~= ser_note(n));
}

/// Round trip: decoding the encoding of any activity record gives back the
/// identical record.
pub proof fn lemma_activity_round_trip(a: ActivityV)
    requires
        a.device_side matches Some(n) ==> n <= u64::MAX,
    ensures
        parse_activity_chars(ser_activity(a)) == Some(a),
{
    lemma_p_activity(a, Seq::<char>::empty());
    assert(ser_activity(a) + Seq::<char>::empty() =~= ser_activity(a));
}

/// The characters of a text, in order.
fn str_to_chars(s: &str) -> (r: Vec<char>)
    ensures
        r@ == s@,
{
    let n: usize = s.unicode_len();
    let mut v: Vec<char> = Vec::new();
    let mut i: usize = 0;
    while i < n
        invariant
            i <= n,
            n == s@.len(),
            v@ == s@.subrange(0, i as int),
        decreases n - i,
    {
        let c = s.get_char(i);
        v.push(c);
        proof {
            assert(v@ =~= s@.subrange(0, i + 1));
        }
        i = i + 1;
    }
    proof {
        assert(s@.subrange(0, n as int) =~= s@);
    }
    v
}

/// Whether a character is a decimal digit.
fn is_digit_exec(c: char) -> (b: bool)
    ensures
        b == is_digit(c),
{
    let d = c as u32;
    48 <= d && d <= 57
}

/// Consume an expected literal at the given position.
fn expect_lit(v: &Vec<char>, i: usize, lit: &str) -> (r: Option<usize>)
    requires
        i <= v@.len(),
    ensures
        match r {
            Some(j) => i <= j <= v@.len() && p_lit(v@.skip(i as int), lit@) == Some(
                v@.skip(j as int),
            ),
            None => p_lit(v@.skip(i as int), lit@) is None,
        },
{
    let n: usize = lit.unicode_len();
    if v.len() - i < n {
        proof {
            assert(v@.skip(i as int).len() < lit@.len());
        }
        return None;
    }
    let mut k: usize = 0;
    while k < n
        invariant
            k <= n,
            n == lit@.len(),
            i + n <= v@.len(),
            v@.len() <= usize::MAX,
            forall|m: int| 0 <= m < k ==> v@[i + m] == lit@[m],
        decreases n - k,
    {
        let c = v[i + k];
        let l = lit.get_char(k);
        if c != l {
            proof {
                let s = v@.skip(i as int);
                assert(s.subrange(0, n as int)[k as int] == v@[i + k]);
                assert(s.subrange(0, n as int) != lit@);
            }
            return None;
        }
        k = k + 1;
    }
    proof {
        let s = v@.skip(i as int);
        assert(s.subrange(0, n as int) =~= lit@);
        assert(s.skip(n as int) =~= v@.skip(i + n));
    }
    Some(i + n)
}

/// Consume a number at the given position.
fn parse_number_at(v: &Vec<char>, i: usize) -> (r: Option<(u64, usize)>)
    requires
        i <= v@.len(),
    ensures
        match r {
            Some(p) => i <= p.1 <= v@.len() && p_num(v@.skip(i as int)) == Some(
                (p.0 as nat, v@.skip(p.1 as int)),
            ),
            None => p_num(v@.skip(i as int)) is None,
        },
{
    if i >= v.len() || !is_digit_exec(v[i]) {
        proof {
            if i < v@.len() {
                assert(v@.skip(i as int)[0] == v@[i as int]);
            }
        }
        return None;
    }
    proof {
        assert(v@.skip(i as int)[0] == v@[i as int]);
    }
    let mut j: usize = i;
    let mut acc: u64 = 0;
    let mut overflowed: bool = false;
    let ghost mut gacc: nat = 0nat;
    while j < v.len() && is_digit_exec(v[j])
        invariant
            i <= j <= v@.len(),
            p_num_rec(v@.skip(i as int), 0) == p_num_rec(v@.skip(j as int), gacc),
            !overflowed ==> acc as nat == gacc,
            overflowed ==> gacc > u64::MAX,
        decreases v@.len() - j,
    {
        let c = v[j];
        let d: u64 = ((c as u32) - 48) as u64;
        proof {
            let s = v@.skip(j as int);
            assert(s[0] == v@[j as int]);
            assert(s.drop_first() =~= v@.skip(j + 1));
            assert(digit_val(c) == d as nat);
            assert(p_num_rec(s, gacc) == p_num_rec(v@.skip(j + 1), gacc * 10 + digit_val(c)));
        }
        let ghost gacc_pre = gacc;
        proof {
            gacc = gacc * 10 + (d as nat);
            assert(gacc_pre * 10 >= gacc_pre);
            assert(gacc >= gacc_pre);
        }
        if !overflowed {
            if acc > (u64::MAX - d) / 10 {
                overflowed = true;
                proof {
                    assert(acc * 10 + d > u64::MAX);
                }
            } else {
                proof {
                    assert(acc * 10 + d <= u64::MAX);
                }
                acc = acc * 10 + d;
            }
        }
        j = j + 1;
    }
    proof {
        let s = v@.skip(j as int);
        if s.len() > 0 {
            assert(s[0] == v@[j as int]);
        }
        assert(p_num_rec(s, gacc) == (gacc, s));
    }
    if overflowed {
        None
    } else {
        Some((acc, j))
    }
}

/// Consume a quoted, escaped string at the given position.
fn parse_string_at(v: &Vec<char>, i: usize) -> (r: Option<(String, usize)>)
    requires
        i <= v@.len(),
    ensures
        match r {
            Some(p) => i <= p.1 <= v@.len() && p_str(v@.skip(i as int)) == Some(
                (p.0@, v@.skip(p.1 as int)),
            ),
            None => p_str(v@.skip(i as int)) is None,
        },
{
    if i >= v.len() || v[i] != '"' {
        proof {
            if i < v@.len() {
                assert(v@.skip(i as int)[0] == v@[i as int]);
            }
        }
        return None;
    }
    let mut out = String::new();
    let mut j: usize = i + 1;
    proof {
        assert(v@.skip(i as int)[0] == v@[i as int]);
        assert(v@.skip(i as int).drop_first() =~= v@.skip(i + 1));
        let pb = p_str_body(v@.skip(i + 1));
        match pb {
            Some(p) => {
                assert(Seq::<char>::empty() + p.0 =~= p.0);
            },
            None => {},
        }
    }
    while j < v.len()
        invariant
            i + 1 <= j <= v@.len(),
            p_str(v@.skip(i as int)) == (match p_str_body(v@.skip(j as int)) {
                Some(p) => Some((out@ + p.0, p.1)),
                None => None::<(Seq<char>, Seq<char>)>,
            }),
        decreases v@.len() - j,
    {
        let c = v[j];
        proof {
            assert(v@.skip(j as int)[0] == v@[j as int]);
            assert(v@.skip(j as int).drop_first() =~= v@.skip(j + 1));
        }
        if c == '"' {
            proof {
                assert(p_str_body(v@.skip(j as int)) == Some(
                    (Seq::<char>::empty(), v@.skip(j + 1)),
                ));
                assert(out@ + Seq::<char>::empty() =~= out@);
            }
            return Some((out, j + 1));
        } else if c == '\\' {
            if j + 1 >= v.len() {
                proof {
                    assert(v@.skip(j as int).len() < 2);
                }
                return None;
            }
            let e = v[j + 1];
            proof {
                assert(v@.skip(j as int)[1] == v@[j + 1]);
                assert(v@.skip(j as int).skip(2) =~= v@.skip(j + 2));
            }
            let u: char;
            if e == '"' {
                u = '"';
            } else if e == '\\' {
                u = '\\';
            } else if e == 'n' {
                u = '\n';
            } else if e == 'r' {
                u = '\r';
            } else if e == 't' {
                u = '\t';
            } else {
                proof {
                    assert(unesc_char(e) is None);
                }
                return None;
            }
            let ghost out_pre = out@;
            push_char(&mut out, u);
            proof {
                assert(unesc_char(e) == Some(u));
                let pb = p_str_body(v@.skip(j + 2));
                match pb {
                    Some(p) => {
                        assert(out_pre + (seq![u] + p.0) =~= (out_pre + seq![u]) + p.0);
                    },
                    None => {},
                }
            }
            j = j + 2;
        } else {
            let ghost out_pre = out@;
            push_char(&mut out, c);
            proof {
                let pb = p_str_body(v@.skip(j + 1));
                match pb {
                    Some(p) => {
                        assert(out_pre + (seq![c] + p.0) =~= (out_pre + seq![c]) + p.0);
                    },
                    None => {},
                }
            }
            j = j + 1;
        }
    }
    proof {
        assert(v@.skip(j as int).len() == 0);
    }
    None
}

/// Consume a string value or `null` at the given position.
fn parse_opt_string_at(v: &Vec<char>, i: usize) -> (r: Option<(Option<String>, usize)>)
    requires
        i <= v@.len(),
    ensures
        match r {
            Some(p) => i <= p.1 <= v@.len() && p_opt_str(v@.skip(i as int)) == Some(
                (
                    match p.0 {
                        Some(t) => Some(t@),
                        None => None,
                    },
                    v@.skip(p.1 as int),
                ),
            ),
            None => p_opt_str(v@.skip(i as int)) is None,
        },
{
    proof {
        if i < v@.len() {
            assert(v@.skip(i as int)[0] == v@[i as int]);
        }
    }
    if i < v.len() && v[i] == '"' {
        match parse_string_at(v, i) {
            Some((t, j)) => Some((Some(t), j)),
            None => None,
        }
    } else {
        match expect_lit(v, i, "null") {
            Some(j) => Some((None, j)),
            None => None,
        }
    }
}

/// Consume a number or `null` at the given position.
fn parse_opt_num_at(v: &Vec<char>, i: usize) -> (r: Option<(Option<u64>, usize)>)
    requires
        i <= v@.len(),
    ensures
        match r {
            Some(p) => i <= p.1 <= v@.len() && p_opt_num(v@.skip(i as int)) == Some(
                (
                    match p.0 {
                        Some(n) => Some(n as nat),
                        None => None,
                    },
                    v@.skip(p.1 as int),
                ),
            ),
            None => p_opt_num(v@.skip(i as int)) is None,
        },
{
    proof {
        if i < v@.len() {
            assert(v@.skip(i as int)[0] == v@[i as int]);
        }
    }
    if i < v.len() && is_digit_exec(v[i]) {
        match parse_number_at(v, i) {
            Some((n, j)) => Some((Some(n), j)),
            None => None,
        }
    } else {
        match expect_lit(v, i, "null") {
            Some(j) => Some((None, j)),
            None => None,
        }
    }
}

/// Consume a tag record at the given position.
#[verifier::rlimit(100)]
fn parse_tag_at(v: &Vec<char>, i: usize) -> (r: Option<(Tag, usize)>)
    requires
        i <= v@.len(),
    ensures
        match r {
            Some(p) => i <= p.1 <= v@.len() && p_tag(v@.skip(i as int)) == Some(
                (p.0@, v@.skip(p.1 as int)),
            ),
            None => p_tag(v@.skip(i as int)) is None,
        },
{
    let j1 = match expect_lit(v, i, "{\"id\":") {
        Some(j) => j,
        None => {
            return None;
        },
    };
    let (id, j2) = match parse_number_at(v, j1) {
        Some(p) => p,
        None => {
            return None;
        },
    };
    let j3 = match expect_lit(v, j2, ",\"key\":") {
        Some(j) => j,
        None => {
            return None;
        },
    };
    let (key, j4) = match parse_string_at(v, j3) {
        Some(p) => p,
        None => {
            return None;
        },
    };
    let j5 = match expect_lit(v, j4, ",\"label\":") {
        Some(j) => j,
        None => {
            return None;
        },
    };
    let (label, j6) = match parse_string_at(v, j5) {
        Some(p) => p,
        None => {
            return None;
        },
    };
    let j7 = match expect_lit(v, j6, ",\"scope\":") {
        Some(j) => j,
        None => {
            return None;
        },
    };
    let (scope, j8) = match parse_string_at(v, j7) {
        Some(p) => p,
        None => {
            return None;
        },
    };
    let j9 = match expect_lit(v, j8, ",\"spaceId\":") {
        Some(j) => j,
        None => {
            return None;
        },
    };
    let (space_id, j10) = match parse_string_at(v, j9) {
        Some(p) => p,
        None => {
            return None;
        },
    };
    let j11 = match expect_lit(v, j10, "}") {
        Some(j) => j,
        None => {
            return None;
        },
    };
    Some((Tag { id, key, label, scope, space_id }, j11))
}

/// Consume a tag array at the given position.
#[verifier::rlimit(100)]
fn parse_tags_at(v: &Vec<char>, i: usize) -> (r: Option<(Vec<Tag>, usize)>)
    requires
        i <= v@.len(),
    ensures
        match r {
            Some(p) => i <= p.1 <= v@.len() && p_tags(v@.skip(i as int)) == Some(
                (p.0@.map_values(|t: Tag| t@), v@.skip(p.1 as int)),
            ),
            None => p_tags(v@.skip(i as int)) is None,
        },
{
    let j0 = match expect_lit(v, i, "[") {
        Some(j) => j,
        None => {
            return None;
        },
    };
    proof {
        if j0 < v@.len() {
            assert(v@.skip(j0 as int)[0] == v@[j0 as int]);
        }
    }
    if j0 < v.len() && v[j0] == ']' {
        let out: Vec<Tag> = Vec::new();
        proof {
            assert(v@.skip(j0 as int).drop_first() =~= v@.skip(j0 + 1));
            assert(out@.map_values(|t: Tag| t@) =~= Seq::<TagV>::empty());
        }
        return Some((out, j0 + 1));
    }
    let mut out: Vec<Tag> = Vec::new();
    let mut k: usize = j0;
    proof {
        let items = p_tags_items(v@.skip(j0 as int));
        match items {
            Some(p) => {
                assert(Seq::<TagV>::empty() + p.0 =~= p.0);
                assert(out@.map_values(|t: Tag| t@) =~= Seq::<TagV>::empty());
            },
            None => {},
        }
    }
    loop
        invariant
            i <= j0 <= k <= v@.len(),
            p_tags(v@.skip(i as int)) == (match p_tags_items(v@.skip(k as int)) {
                Some(p) => Some((out@.map_values(|t: Tag| t@) + p.0, p.1)),
                None => None::<(Seq<TagV>, Seq<char>)>,
            }),
        decreases v@.len() - k,
    {
        let (t, j) = match parse_tag_at(v, k) {
            Some(p) => p,
            None => {
                return None;
            },
        };
        if j >= v.len() {
            proof {
                assert(v@.skip(j as int).len() == 0);
            }
            return None;
        }
        let c = v[j];
        proof {
            assert(v@.skip(j as int)[0] == v@[j as int]);
            assert(v@.skip(j as int).drop_first() =~= v@.skip(j + 1));
        }
        if c == ',' {
            let ghost out_pre = out@.map_values(|t: Tag| t@);
            out.push(t);
            proof {
                assert(v@.skip(j + 1).len() < v@.skip(k as int).len());
                assert(out@.map_values(|t: Tag| t@) =~= out_pre.push(t@));
                let items = p_tags_items(v@.skip(j + 1));
                match items {
                    Some(p) => {
                        assert(out_pre + (seq![t@] + p.0) =~= (out_pre + seq![t@]) + p.0);
                        assert(out_pre + seq![t@] =~= out_pre.push(t@));
                    },
                    None => {},
                }
            }
            k = j + 1;
        } else if c == ']' {
            let ghost out_pre = out@.map_values(|t: Tag| t@);
            out.push(t);
            proof {
                assert(p_tags_items(v@.skip(k as int)) == Some((seq![t@], v@.skip(j + 1))));
                assert(out_pre + seq![t@] =~= out_pre.push(t@));
                assert(out@.map_values(|t: Tag| t@) =~= out_pre.push(t@));
            }
            return Some((out, j + 1));
        } else {
            return None;
        }
    }
}

/// Consume a note record at the given position.
#[verifier::rlimit(100)]
fn parse_note_at(v: &Vec<char>, i: usize) -> (r: Option<(Note, usize)>)
    requires
        i <= v@.len(),
    ensures
        match r {
            Some(p) => i <= p.1 <= v@.len() && p_note(v@.skip(i as int)) == Some(
                (p.0@, v@.skip(p.1 as int)),
            ),
            None => p_note(v@.skip(i as int)) is None,
        },
{
    let j1 = match expect_lit(v, i, "{\"text\":") {
        Some(j) => j,
        None => {
            return None;
        },
    };
    let (text, j2) = match parse_opt_string_at(v, j1) {
        Some(p) => p,
        None => {
            return None;
        },
    };
    let j3 = match expect_lit(v, j2, ",\"tags\":") {
        Some(j) => j,
        None => {
            return None;
        },
    };
    let (tags, j4) = match parse_tags_at(v, j3) {
        Some(p) => p,
        None => {
            return None;
        },
    };
    let j5 = match expect_lit(v, j4, ",\"mentions\":") {
        Some(j) => j,
        None => {
            return None;
        },
    };
    let (mentions, j6) = match parse_tags_at(v, j5) {
        Some(p) => p,
        None => {
            return None;
        },
    };
    let j7 = match expect_lit(v, j6, "}") {
        Some(j) => j,
        None => {
            return None;
        },
    };
    Some((Note { text, tags, mentions }, j7))
}

/// Consume an activity record at the given position.
#[verifier::rlimit(100)]
fn parse_activity_at(v: &Vec<char>, i: usize) -> (r: Option<(Activity, usize)>)
    requires
        i <= v@.len(),
    ensures
        match r {
            Some(p) => i <= p.1 <= v@.len() && p_activity(v@.skip(i as int)) == Some(
                (p.0@, v@.skip(p.1 as int)),
            ),
            None => p_activity(v@.skip(i as int)) is None,
        },
{
    let j1 = match expect_lit(v, i, "{\"id\":") {
        Some(j) => j,
        None => {
            return None;
        },
    };
    let (id, j2) = match parse_string_at(v, j1) {
        Some(p) => p,
        None => {
            return None;
        },
    };
    let j3 = match expect_lit(v, j2, ",\"name\":") {
        Some(j) => j,
        None => {
            return None;
        },
    };
    let (name, j4) = match parse_string_at(v, j3) {
        Some(p) => p,
        None => {
            return None;
        },
    };
    let j5 = match expect_lit(v, j4, ",\"color\":") {
        Some(j) => j,
        None => {
            return None;
        },
    };
    let (color, j6) = match parse_string_at(v, j5) {
        Some(p) => p,
        None => {
            return None;
        },
    };
    let j7 = match expect_lit(v, j6, ",\"integration\":") {
        Some(j) => j,
        None => {
            return None;
        },
    };
    let (integration, j8) = match parse_opt_string_at(v, j7) {
        Some(p) => p,
        None => {
            return None;
        },
    };
    let j9 = match expect_lit(v, j8, ",\"spaceId\":") {
        Some(j) => j,
        None => {
            return None;
        },
    };
    let (space_id, j10) = match parse_string_at(v, j9) {
        Some(p) => p,
        None => {
            return None;
        },
    };
    let j11 = match expect_lit(v, j10, ",\"deviceSide\":") {
        Some(j) => j,
        None => {
            return None;
        },
    };
    let (device_side, j12) = match parse_opt_num_at(v, j11) {
        Some(p) => p,
        None => {
            return None;
        },
    };
    let j13 = match expect_lit(v, j12, "}") {
        Some(j) => j,
        None => {
            return None;
        },
    };
    Some((Activity { id, name, color, integration, space_id, device_side }, j13))
}

/// Decode a whole text as a tag record; it must be consumed exactly.
pub fn parse_tag(s: &str) -> (r: Option<Tag>)
    ensures
        match r {
            Some(t) => parse_tag_chars(s@) == Some(t@),
            None => parse_tag_chars(s@) is None,
        },
{
    let v = str_to_chars(s);
    proof {
        assert(v@.skip(0) =~= s@);
    }
    match parse_tag_at(&v, 0) {
        Some((t, j)) => if j == v.len() {
            proof {
                assert(v@.skip(j as int).len() == 0);
            }
            Some(t)
        } else {
            None
        },
        None => None,
    }
}

/// Decode a whole text as a note record; it must be consumed exactly.
pub fn parse_note(s: &str) -> (r: Option<Note>)
    ensures
        match r {
            Some(n) => parse_note_chars(s@) == Some(n@),
            None => parse_note_chars(s@) is None,
        },
{
    let v = str_to_chars(s);
    proof {
        assert(v@.skip(0) =~= s@);
    }
    match parse_note_at(&v, 0) {
        Some((n, j)) => if j == v.len() {
            proof {
                assert(v@.skip(j as int).len() == 0);
            }
            Some(n)
        } else {
            None
        },
        None => None,
    }
}

/// Decode a whole text as an activity record; it must be consumed exactly.
pub fn parse_activity(s: &str) -> (r: Option<Activity>)
    ensures
        match r {
            Some(a) => parse_activity_chars(s@) == Some(a@),
            None => parse_activity_chars(s@) is None,
        },
{
    let v = str_to_chars(s);
    proof {
        assert(v@.skip(0) =~= s@);
    }
    match parse_activity_at(&v, 0) {
        Some((a, j)) => if j == v.len() {
            proof {
                assert(v@.skip(j as int).len() == 0);
            }
            Some(a)
        } else {
            None
        },
        None => None,
    }
}


} // verus!
