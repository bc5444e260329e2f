//! Canonical text for JSON values.
//!
//! `spec_json_text` defines one canonical textual form of a [`JsonValue`]; the
//! executable serializer produces exactly that text.  The engine uses it to
//! fingerprint records for uniqueness checking, where all that matters is that
//! equal values give equal text and the text is a function of the value alone.
//!
//! Strings are escaped for the quote, the backslash and the three common
//! control characters; a decimal number prints its six fractional digits with
//! trailing zeros removed, always keeping at least one.

use vstd::prelude::*;
use crate::value::{JsonValue, JsonV};
use crate::numfmt::{spec_i64_str, spec_u64_str, spec_digit_char, i64_to_string, u64_to_string, digit_char};
use crate::strutil::{push_char, append_chars, to_chars};

verus! {

broadcast use vstd::std_specs::vec::group_vec_axioms;

/// The escape sequence of one character inside a JSON string.
pub open spec fn spec_esc_char(c: char) -> Seq<char> {
    if c == '"' {
        seq!['\\', '"']
    } else if c == '\\' {
        seq!['\\', '\\']
    } else if c == '\n' {
        seq!['\\', 'n']
    } else if c == '\r' {
        seq!['\\', 'r']
    } else if c == '\t' {
        seq!['\\', 't']
    } else {
        seq![c]
    }
}

/// A string body with every character escaped.
pub open spec fn spec_esc_str(s: Seq<char>) -> Seq<char>
    decreases s.len(),
{
    if s.len() == 0 {
        Seq::empty()
    } else {
        spec_esc_str(s.drop_last()) + spec_esc_char(s.last())
    }
}

/// The six fractional digits of `f`, most significant first.
pub open spec fn spec_pad6(f: int) -> Seq<char> {
    seq![
        spec_digit_char((f / 100000) % 10),
        spec_digit_char((f / 10000) % 10),
        spec_digit_char((f / 1000) % 10),
        spec_digit_char((f / 100) % 10),
        spec_digit_char((f / 10) % 10),
        spec_digit_char(f % 10),
    ]
}

/// Digits with trailing zeros removed; the first digit always stays.
pub open spec fn spec_trim_zeros(s: Seq<char>) -> Seq<char>
    decreases s.len(),
{
    if s.len() > 1 && s.last() == '0' {
        spec_trim_zeros(s.drop_last())
    } else {
        s
    }
}

/// The canonical text of a decimal number held as value times one million.
pub open spec fn spec_dec_str(m: int) -> Seq<char> {
    let a = if m < 0 {
        -m
    } else {
        m
    };
    let sign: Seq<char> = if m < 0 {
        seq!['-']
    } else {
        Seq::empty()
    };
    sign + spec_u64_str(a / 1000000) + seq!['.'] + spec_trim_zeros(spec_pad6(a % 1000000))
}

/// The canonical text of a JSON value.
pub open spec fn spec_json_text(v: JsonV) -> Seq<char>
    decreases v,
{
    match v {
        JsonV::Null => "null"@,
        JsonV::Bool(b) => if b {
            "true"@
        } else {
            "false"@
        },
        JsonV::Int(i) => spec_i64_str(i as int),
        JsonV::Dec(m) => spec_dec_str(m as int),
        JsonV::Str(s) => seq!['"'] + spec_esc_str(s) + seq!['"'],
        JsonV::Arr(items) => seq!['['] + spec_json_items(items) + seq![']'],
        JsonV::Obj(entries) => seq!['{'] + spec_json_members(entries) + seq!['}'],
    }
}

/// Array elements joined with commas.
pub open spec fn spec_json_items(items: Seq<JsonV>) -> Seq<char>
    decreases items,
{
    if items.len() == 0 {
        Seq::empty()
    } else if items.len() == 1 {
        spec_json_text(items[0])
    } else {
        spec_json_items(items.drop_last()) + seq![','] + spec_json_text(items.last())
    }
}

/// Object members joined with commas, each `"key":value`.
pub open spec fn spec_json_members(entries: Seq<(Seq<char>, JsonV)>) -> Seq<char>
    decreases entries,
{
    if entries.len() == 0 {
        Seq::empty()
    } else if entries.len() == 1 {
        spec_json_member(entries[0])
    } else {
        spec_json_members(entries.drop_last()) + seq![','] + spec_json_member(entries.last())
    }
}

/// One object member: quoted escaped key, a colon, then the value.
pub open spec fn spec_json_member(entry: (Seq<char>, JsonV)) -> Seq<char>
    decreases entry,
{
    seq!['"'] + spec_esc_str(entry.0) + seq!['"', ':'] + spec_json_text(entry.1)
}

/// Appends the escape sequence of one character.
fn write_esc_char(out: &mut String, c: char)
    ensures
        final(out)@ == old(out)@ + spec_esc_char(c),
{
    if c == '"' {
        push_char(out, '\\');
        push_char(out, '"');
    } else if c == '\\' {
        push_char(out, '\\');
        push_char(out, '\\');
    } else if c == '\n' {
        push_char(out, '\\');
        push_char(out, 'n');
    } else if c == '\r' {
        push_char(out, '\\');
        push_char(out, 'r');
    } else if c == '\t' {
        push_char(out, '\\');
        push_char(out, 't');
    } else {
        push_char(out, c);
    }
    proof {
        assert(out@ =~= old(out)@ + spec_esc_char(c));
    }
}

/// Appends the escaped body of a string.
fn write_esc_str(out: &mut String, s: &str)
    ensures
        final(out)@ == old(out)@ + spec_esc_str(s@),
{
    let v = to_chars(s);
    let mut i: usize = 0;
    while i < v.len()
        invariant
            0 <= i <= v@.len(),
            v@ == s@,
            out@ == old(out)@ + spec_esc_str(s@.subrange(0, i as int)),
        decreases v@.len() - i,
    {
        write_esc_char(out, v[i]);
        proof {
            let pre = s@.subrange(0, i as int);
            let cur = s@.subrange(0, i + 1 as int);
            assert(cur.drop_last() =~= pre);
            assert(cur.last() == s@[i as int]);
            assert(out@ =~= old(out)@ + spec_esc_str(cur));
        }
        i = i + 1;
    }
    proof {
        assert(s@.subrange(0, s@.len() as int) =~= s@);
    }
}

/// The canonical text of a decimal number held as value times one million.
pub fn dec_to_string(m: i64) -> (r: String)
    ensures
        r@ == spec_dec_str(m as int),
{
    let a: u64 = if m == i64::MIN {
        0x8000000000000000u64
    } else if m < 0 {
        (-m) as u64
    } else {
        m as u64
    };
    let mut out = String::new();
    if m < 0 {
        push_char(&mut out, '-');
    }
    let units = u64_to_string(a / 1000000);
    out.append(units.as_str());
    push_char(&mut out, '.');
    let f: u64 = a % 1000000;
    let mut digs: Vec<char> = Vec::new();
    digs.push(digit_char((f / 100000) % 10));
    digs.push(digit_char((f / 10000) % 10));
    digs.push(digit_char((f / 1000) % 10));
    digs.push(digit_char((f / 100) % 10));
    digs.push(digit_char((f / 10) % 10));
    digs.push(digit_char(f % 10));
    proof {
        assert(digs@ =~= spec_pad6(f as int));
    }
    while digs.len() > 1 && digs[digs.len() - 1] == '0'
        invariant
            digs@.len() >= 1,
            spec_trim_zeros(digs@) == spec_trim_zeros(spec_pad6(f as int)),
        decreases digs@.len(),
    {
        let ghost pre = digs@;
        digs.pop();
        proof {
            assert(digs@ =~= pre.drop_last());
        }
    }
    proof {
        assert(spec_trim_zeros(digs@) == digs@);
    }
    append_chars(&mut out, digs.as_slice());
    proof {
        assert(out@ =~= spec_dec_str(m as int));
    }
    out
}

/// Appends the canonical text of `v`.
pub fn write_json(v: &JsonValue, out: &mut String)
    ensures
        final(out)@ == old(out)@ + spec_json_text(v@),
    decreases *v,
{
    match v {
        JsonValue::Null => {
            out.append("null");
        },
        JsonValue::Bool(b) => {
            if *b {
                out.append("true");
            } else {
                out.append("false");
            }
        },
        JsonValue::Int(i) => {
            let t = i64_to_string(*i);
            out.append(t.as_str());
        },
        JsonValue::Dec(m) => {
            let t = dec_to_string(*m);
            out.append(t.as_str());
        },
        JsonValue::Str(s) => {
            push_char(out, '"');
            write_esc_str(out, s.as_str());
            push_char(out, '"');
            proof {
                assert(out@ =~= old(out)@ + spec_json_text(v@));
            }
        },
        JsonValue::Arr(items) => {
            let ghost gitems = v@->Arr_0;
            push_char(out, '[');
            let mut i: usize = 0;
            while i < items.len()
                invariant
                    0 <= i <= items@.len(),
                    *v == JsonValue::Arr(*items),
                    v@ is Arr,
                    gitems == v@->Arr_0,
                    gitems.len() == items@.len(),
                    forall|j: int| 0 <= j < gitems.len() ==> gitems[j] == items@[j]@,
                    out@ == old(out)@ + seq!['['] + spec_json_items(gitems.subrange(0, i as int)),
                decreases items@.len() - i,
            {
                if i > 0 {
                    push_char(out, ',');
                }
                write_json(&items[i], out);
                proof {
                    let pre = gitems.subrange(0, i as int);
                    let cur = gitems.subrange(0, i + 1 as int);
                    assert(cur.drop_last() =~= pre);
                    assert(cur.last() == gitems[i as int]);
                    if i == 0 {
                        assert(out@ =~= old(out)@ + seq!['['] + spec_json_items(cur));
                    } else {
                        assert(out@ =~= old(out)@ + seq!['['] + spec_json_items(cur));
                    }
                }
                i = i + 1;
            }
            push_char(out, ']');
            proof {
                assert(gitems.subrange(0, gitems.len() as int) =~= gitems);
                assert(out@ =~= old(out)@ + spec_json_text(v@));
            }
        },
        JsonValue::Obj(entries) => {
            let ghost gentries = v@->Obj_0;
            push_char(out, '{');
            let mut i: usize = 0;
            while i < entries.len()
                invariant
                    0 <= i <= entries@.len(),
                    *v == JsonValue::Obj(*entries),
                    v@ is Obj,
                    gentries == v@->Obj_0,
                    gentries.len() == entries@.len(),
                    forall|j: int|
                        0 <= j < gentries.len() ==> gentries[j] == (
                        entries@[j].0@,
                        entries@[j].1@,
                        ),
                    out@ == old(out)@ + seq!['{'] + spec_json_members(
                        gentries.subrange(0, i as int),
                    ),
                decreases entries@.len() - i,
            {
                if i > 0 {
                    push_char(out, ',');
                }
                push_char(out, '"');
                write_esc_str(out, entries[i].0.as_str());
                push_char(out, '"');
                push_char(out, ':');
                write_json(&entries[i].1, out);
                proof {
                    let pre = gentries.subrange(0, i as int);
                    let cur = gentries.subrange(0, i + 1 as int);
                    assert(cur.drop_last() =~= pre);
                    assert(cur.last() == gentries[i as int]);
                    assert(spec_json_member(gentries[i as int]) =~= seq!['"'] + spec_esc_str(
                        entries@[i as int].0@,
                    ) + seq!['"', ':'] + spec_json_text(entries@[i as int].1@));
                    if i == 0 {
                        assert(spec_json_members(cur) == spec_json_member(cur[0]));
                        assert(out@ =~= old(out)@ + seq!['{'] + spec_json_members(cur));
                    } else {
                        assert(spec_json_members(cur) == spec_json_members(pre) + seq![',']
                            + spec_json_member(cur.last()));
                        assert(out@ =~= old(out)@ + seq!['{'] + spec_json_members(cur));
                    }
                }
                i = i + 1;
            }
            push_char(out, '}');
            proof {
                assert(gentries.subrange(0, gentries.len() as int) =~= gentries);
                assert(out@ =~= old(out)@ + spec_json_text(v@));
            }
        },
    }
}

/// The canonical text of `v` as a fresh string.
pub fn json_to_string(v: &JsonValue) -> (r: String)
    ensures
        r@ == spec_json_text(v@),
{
    let mut out = String::new();
    write_json(v, &mut out);
    out
}

} // verus!
