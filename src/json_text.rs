//! The compact JSON text of a value.
use vstd::prelude::*;

use crate::json::{lemma_array_view, lemma_object_view, member_views, views, Json, JsonValue, Member};
use crate::text::{chars_of, push_str, text_of};

verus! {

broadcast use vstd::std_specs::vec::group_vec_axioms;

/// The lower-case hexadecimal digit for `d`.
pub open spec fn hex_digit(d: nat) -> char {
    if d < 10 {
        crate::text::digit(d)
    } else if d == 10 {
        'a'
    } else if d == 11 {
        'b'
    } else if d == 12 {
        'c'
    } else if d == 13 {
        'd'
    } else if d == 14 {
        'e'
    } else {
        'f'
    }
}

/// How a character is written inside a JSON string: quote and backslash are
/// escaped, the control characters with a short escape where JSON has one and
/// as `\u00XX` otherwise.
pub open spec fn escaped_char(c: char) -> Seq<char> {
    if c == '"' {
        seq!['\\', '"']
    } else if c == '\\' {
        seq!['\\', '\\']
    } else if c == '\n' {
        seq!['\\', 'n']
    } else if c == '\r' {
        seq!['\\', 'r']
    } else if c == '\t' {
        seq!['\\', 't']
    } else if c == '\x08' {
        seq!['\\', 'b']
    } else if c == '\x0c' {
        seq!['\\', 'f']
    } else if (c as u32) < 0x20 {
        seq!['\\', 'u', '0', '0', hex_digit((c as u32 / 16) as nat), hex_digit((c as u32 % 16) as nat)]
    } else {
        seq![c]
    }
}

/// A text written inside a JSON string.
pub open spec fn escaped(s: Seq<char>) -> Seq<char>
    decreases s.len(),
{
    if s.len() == 0 {
        seq![]
    } else {
        escaped(s.drop_last()) + escaped_char(s.last())
    }
}

/// A JSON string literal.
pub open spec fn quoted(s: Seq<char>) -> Seq<char> {
    seq!['"'] + escaped(s) + seq!['"']
}

/// The compact JSON text of a value: no spaces, members in order.
pub open spec fn json_text(j: Json) -> Seq<char>
    decreases j, 1nat,
{
    match j {
        Json::Null => "null"@,
        Json::Bool(b) => if b {
            "true"@
        } else {
            "false"@
        },
        Json::Number(n) => n,
        Json::Str(s) => quoted(s),
        Json::Array(xs) => seq!['['] + items_text(xs) + seq![']'],
        Json::Object(ms) => seq!['{'] + members_text(ms) + seq!['}'],
    }
}

/// The texts of items, separated by commas.
pub open spec fn items_text(xs: Seq<Json>) -> Seq<char>
    decreases xs, 0nat,
{
    if xs.len() == 0 {
        seq![]
    } else if xs.len() == 1 {
        json_text(xs[0])
    } else {
        items_text(xs.subrange(0, xs.len() - 1)) + seq![','] + json_text(xs[xs.len() - 1])
    }
}

/// The texts of members, `"key":value`, separated by commas.
pub open spec fn members_text(ms: Seq<Member>) -> Seq<char>
    decreases ms, 0nat,
{
    if ms.len() == 0 {
        seq![]
    } else if ms.len() == 1 {
        quoted(ms[0].key) + seq![':'] + json_text(ms[0].value)
    } else {
        members_text(ms.subrange(0, ms.len() - 1)) + seq![','] + quoted(ms[ms.len() - 1].key)
            + seq![':'] + json_text(ms[ms.len() - 1].value)
    }
}

fn hex_char(d: u32) -> (r: char)
    requires
        d < 16,
    ensures
        r == hex_digit(d as nat),
{
    if d == 0 { '0' } else if d == 1 { '1' } else if d == 2 { '2' } else if d == 3 { '3' }
    else if d == 4 { '4' } else if d == 5 { '5' } else if d == 6 { '6' } else if d == 7 { '7' }
    else if d == 8 { '8' } else if d == 9 { '9' } else if d == 10 { 'a' } else if d == 11 { 'b' }
    else if d == 12 { 'c' } else if d == 13 { 'd' } else if d == 14 { 'e' } else { 'f' }
}

fn push_escaped(out: &mut Vec<char>, s: &str)
    ensures
        final(out)@ == old(out)@ + escaped(s@),
{
    let cs = chars_of(s);
    let ghost start = out@;
    let mut i: usize = 0;
    while i < cs.len()
        invariant
            cs@ == s@,
            i <= cs.len(),
            out@ == start + escaped(cs@.take(i as int)),
        decreases cs.len() - i,
    {
        let c = cs[i];
        let ghost before = out@;
        if c == '"' {
            out.push('\\');
            out.push('"');
        } else if c == '\\' {
            out.push('\\');
            out.push('\\');
        } else if c == '\n' {
            out.push('\\');
            out.push('n');
        } else if c == '\r' {
            out.push('\\');
            out.push('r');
        } else if c == '\t' {
            out.push('\\');
            out.push('t');
        } else if c == '\x08' {
            out.push('\\');
            out.push('b');
        } else if c == '\x0c' {
            out.push('\\');
            out.push('f');
        } else if (c as u32) < 0x20 {
            out.push('\\');
            out.push('u');
            out.push('0');
            out.push('0');
            out.push(hex_char(c as u32 / 16));
            out.push(hex_char(c as u32 % 16));
        } else {
            out.push(c);
        }
        assert(out@ =~= before + escaped_char(c));
        assert(cs@.take(i + 1).drop_last() =~= cs@.take(i as int));
        i += 1;
    }
    assert(cs@.take(cs.len() as int) =~= cs@);
}

fn push_quoted(out: &mut Vec<char>, s: &str)
    ensures
        final(out)@ == old(out)@ + quoted(s@),
{
    let ghost start = out@;
    out.push('"');
    push_escaped(out, s);
    out.push('"');
    assert(out@ =~= start + quoted(s@));
}

/// Writes the compact JSON text of a value.
pub fn write_json(v: &JsonValue, out: &mut Vec<char>)
    ensures
        final(out)@ == old(out)@ + json_text(v@),
    decreases v,
{
    let ghost start = out@;
    match v {
        JsonValue::Null => push_str(out, "null"),
        JsonValue::Bool(b) => if *b {
            push_str(out, "true")
        } else {
            push_str(out, "false")
        },
        JsonValue::Number(n) => push_str(out, n.as_str()),
        JsonValue::Str(s) => push_quoted(out, s.as_str()),
        JsonValue::Array(xs) => {
            proof {
                lemma_array_view(*xs);
            }
            let ghost all = views(xs@);
            out.push('[');
            let ghost head = out@;
            let mut i: usize = 0;
            while i < xs.len()
                invariant
                    *v == JsonValue::Array(*xs),
                    all == views(xs@),
                    i <= xs.len(),
                    out@ == head + items_text(all.take(i as int)),
                decreases xs.len() - i,
            {
                proof {
                    assert(decreases_to!(*v => v->Array_0));
                    assert(decreases_to!(v->Array_0 => v->Array_0[i as int]));
                    assert(all.take(i + 1).subrange(0, i as int) =~= all.take(i as int));
                    assert(all.take(i + 1)[i as int] == xs@[i as int]@);
                }
                if i > 0 {
                    out.push(',');
                }
                write_json(&xs[i], out);
                i += 1;
                assert(out@ =~= head + items_text(all.take(i as int)));
            }
            assert(all.take(xs.len() as int) =~= all);
            out.push(']');
            assert(out@ =~= start + json_text(v@));
        },
        JsonValue::Object(ms) => {
            proof {
                lemma_object_view(*ms);
            }
            let ghost all = member_views(ms@);
            out.push('{');
            let ghost head = out@;
            let mut i: usize = 0;
            while i < ms.len()
                invariant
                    *v == JsonValue::Object(*ms),
                    all == member_views(ms@),
                    i <= ms.len(),
                    out@ == head + members_text(all.take(i as int)),
                decreases ms.len() - i,
            {
                proof {
                    assert(decreases_to!(*v => v->Object_0));
                    assert(decreases_to!(v->Object_0 => v->Object_0[i as int]));
                    assert(decreases_to!(v->Object_0[i as int] => v->Object_0[i as int].value));
                    assert(all.take(i + 1).subrange(0, i as int) =~= all.take(i as int));
                    assert(all.take(i + 1)[i as int] == ms@[i as int]@);
                }
                if i > 0 {
                    out.push(',');
                }
                push_quoted(out, ms[i].key.as_str());
                out.push(':');
                write_json(&ms[i].value, out);
                i += 1;
                assert(out@ =~= head + members_text(all.take(i as int)));
            }
            assert(all.take(ms.len() as int) =~= all);
            out.push('}');
            assert(out@ =~= start + json_text(v@));
        },
    }
}

/// The compact JSON text of a value, as `serde_json::to_string` writes it.
pub fn to_json_string(v: &JsonValue) -> (r: String)
    ensures
        r@ == json_text(v@),
{
    let mut out: Vec<char> = Vec::new();
    write_json(v, &mut out);
    assert(out@ =~= json_text(v@));
    text_of(&out)
}

} // verus!
