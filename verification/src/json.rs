//! JSON rendering of event values, specified character by character:
//! strings are escaped, timestamps render as RFC3339 strings, and a batch
//! becomes newline-delimited records.

use vstd::prelude::*;

use crate::datetime::{rfc3339_millis, spec_rfc3339_millis};
use crate::event::{LogEvent, Value};
use crate::strutil::{spec_dec, spec_digit, u64_to_dec};

verus! {

pub open spec fn spec_hex_digit(d: int) -> char {
    if d < 10 {
        spec_digit(d)
    } else if d == 10 {
        'a'
    } else if d == 11 {
        'b'
    } else if d == 12 {
        'c'
    } else if d == 13 {
        'd'
    } else if d == 14 {
        'e'
    } else {
        'f'
    }
}

/// How one character renders inside a JSON string literal: quote and
/// backslash get a backslash escape, control characters an escape code.
pub open spec fn spec_escape_char(c: char) -> Seq<char> {
    if c == '"' {
        seq!['\\', '"']
    } else if c == '\\' {
        seq!['\\', '\\']
    } else if c == '\n' {
        seq!['\\', 'n']
    } else if c == '\r' {
        seq!['\\', 'r']
    } else if c == '\t' {
        seq!['\\', 't']
    } else if (c as int) < 0x20 {
        seq!['\\', 'u', '0', '0', spec_hex_digit(c as int / 16), spec_hex_digit(c as int % 16)]
    } else {
        seq![c]
    }
}

pub open spec fn spec_escape(s: Seq<char>) -> Seq<char>
    decreases s.len(),
{
    if s.len() == 0 {
        Seq::empty()
    } else {
        spec_escape_char(s[0]) + spec_escape(s.skip(1))
    }
}

/// The JSON rendering of a value.
pub open spec fn spec_json_value(v: Value) -> Seq<char>
    decreases v, 0int,
{
    match v {
        Value::Str(s) => seq!['"'] + spec_escape(s@) + seq!['"'],
        Value::Int(i) => if i >= 0 {
            spec_dec(i as int)
        } else {
            seq!['-'] + spec_dec(-(i as int))
        },
        Value::Bool(b) => if b {
            "true"@
        } else {
            "false"@
        },
        Value::Ts(ms) => seq!['"'] + spec_rfc3339_millis(ms as int) + seq!['"'],
        Value::Arr(vs) => seq!['['] + spec_json_values(vs@) + seq![']'],
        Value::Obj(es) => spec_json_obj(es@),
    }
}

pub open spec fn spec_json_values(vs: Seq<Value>) -> Seq<char>
    decreases vs, 1int,
{
    if vs.len() == 0 {
        Seq::empty()
    } else if vs.len() == 1 {
        spec_json_value(vs[0])
    } else {
        spec_json_values(vs.drop_last()) + seq![','] + spec_json_value(vs.last())
    }
}

pub open spec fn spec_json_entry(k: Seq<char>, v: Value) -> Seq<char>
    decreases v, 1int,
{
    seq!['"'] + spec_escape(k) + seq!['"', ':'] + spec_json_value(v)
}

pub open spec fn spec_json_entries(es: Seq<(String, Value)>) -> Seq<char>
    decreases es, 2int,
{
    if es.len() == 0 {
        Seq::empty()
    } else if es.len() == 1 {
        spec_json_entry(es[0].0@, es[0].1)
    } else {
        spec_json_entries(es.drop_last()) + seq![','] + spec_json_entry(es.last().0@, es.last().1)
    }
}

/// A JSON object rendered from an entry list, in entry order.
pub open spec fn spec_json_obj(es: Seq<(String, Value)>) -> Seq<char>
    decreases es, 3int,
{
    seq!['{'] + spec_json_entries(es) + seq!['}']
}

fn hex_digit_str(d: u32) -> (r: &'static str)
    requires
        d < 16,
    ensures
        r@ =~= seq![spec_hex_digit(d as int)],
{
    proof {
        reveal_strlit("0");
        reveal_strlit("1");
        reveal_strlit("2");
        reveal_strlit("3");
        reveal_strlit("4");
        reveal_strlit("5");
        reveal_strlit("6");
        reveal_strlit("7");
        reveal_strlit("8");
        reveal_strlit("9");
        reveal_strlit("a");
        reveal_strlit("b");
        reveal_strlit("c");
        reveal_strlit("d");
        reveal_strlit("e");
        reveal_strlit("f");
    }
    match d {
        0 => "0",
        1 => "1",
        2 => "2",
        3 => "3",
        4 => "4",
        5 => "5",
        6 => "6",
        7 => "7",
        8 => "8",
        9 => "9",
        10 => "a",
        11 => "b",
        12 => "c",
        13 => "d",
        14 => "e",
        _ => "f",
    }
}

/// Appends the escaped form of `s` to `out`.
fn escape_into(out: &mut String, s: &str)
    ensures
        final(out)@ == old(out)@ + spec_escape(s@),
{
    let len = s.unicode_len();
    let mut i: usize = 0;
    proof {
        assert(s@.skip(0) =~= s@);
        assert(old(out)@ + spec_escape(s@.skip(0)) == old(out)@ + spec_escape(s@));
    }
    while i < len
        invariant
            i <= len,
            len == s@.len(),
            out@ + spec_escape(s@.skip(i as int)) == old(out)@ + spec_escape(s@),
        decreases len - i,
    {
        let c = s.get_char(i);
        proof {
            assert(s@.skip(i as int)[0] == s@[i as int]);
            assert(s@.skip(i as int).skip(1) =~= s@.skip(i + 1));
            reveal_strlit("\\\"");
            reveal_strlit("\\\\");
            reveal_strlit("\\n");
            reveal_strlit("\\r");
            reveal_strlit("\\t");
            reveal_strlit("\\u00");
        }
        if c == '"' {
            out.append("\\\"");
            proof {
                assert("\\\""@ =~= spec_escape_char(c));
            }
        } else if c == '\\' {
            out.append("\\\\");
            proof {
                assert("\\\\"@ =~= spec_escape_char(c));
            }
        } else if c == '\n' {
            out.append("\\n");
            proof {
                assert("\\n"@ =~= spec_escape_char(c));
            }
        } else if c == '\r' {
            out.append("\\r");
            proof {
                assert("\\r"@ =~= spec_escape_char(c));
            }
        } else if c == '\t' {
            out.append("\\t");
            proof {
                assert("\\t"@ =~= spec_escape_char(c));
            }
        } else if (c as u32) < 0x20 {
            out.append("\\u00");
            let d = c as u32;
            out.append(hex_digit_str(d / 16));
            out.append(hex_digit_str(d % 16));
            proof {
                assert("\\u00"@ + seq![spec_hex_digit(d as int / 16)] + seq![
                    spec_hex_digit(d as int % 16),
                ] =~= spec_escape_char(c));
            }
        } else {
            let piece = s.substring_char(i, i + 1);
            proof {
                assert(piece@ =~= seq![s@[i as int]]);
                assert(piece@ =~= spec_escape_char(c));
            }
            out.append(piece);
        }
        i += 1;
    }
    proof {
        assert(s@.skip(len as int) =~= Seq::<char>::empty());
        assert(out@ + Seq::<char>::empty() =~= out@);
    }
}

/// Appends the JSON rendering of `v` to `out`.
pub fn emit_value(out: &mut String, v: &Value)
    ensures
        final(out)@ == old(out)@ + spec_json_value(*v),
    decreases *v, 0int,
{
    proof {
        reveal_strlit("\"");
        reveal_strlit("-");
        reveal_strlit("true");
        reveal_strlit("false");
        reveal_strlit("[");
        reveal_strlit("]");
        reveal_strlit(",");
    }
    match v {
        Value::Str(s) => {
            out.append("\"");
            escape_into(out, s.as_str());
            out.append("\"");
            proof {
                assert(out@ =~= old(out)@ + spec_json_value(*v));
            }
        },
        Value::Int(i) => {
            if *i >= 0 {
                let d = u64_to_dec(*i as u64);
                out.append(d.as_str());
            } else {
                out.append("-");
                let mag: u64 = if *i == -0x8000_0000_0000_0000i64 {
                    0x8000_0000_0000_0000u64
                } else {
                    (-(*i)) as u64
                };
                let d = u64_to_dec(mag);
                out.append(d.as_str());
            }
            proof {
                assert(out@ =~= old(out)@ + spec_json_value(*v));
            }
        },
        Value::Bool(b) => {
            if *b {
                out.append("true");
            } else {
                out.append("false");
            }
            proof {
                assert(out@ =~= old(out)@ + spec_json_value(*v));
            }
        },
        Value::Ts(ms) => {
            out.append("\"");
            let d = rfc3339_millis(*ms);
            out.append(d.as_str());
            out.append("\"");
            proof {
                assert(out@ =~= old(out)@ + spec_json_value(*v));
            }
        },
        Value::Arr(vs) => {
            out.append("[");
            let n = vs.len();
            let mut i: usize = 0;
            proof {
                assert(vs@.take(0) =~= Seq::<Value>::empty());
                assert(out@ =~= old(out)@ + seq!['['] + spec_json_values(vs@.take(0)));
            }
            while i < n
                invariant
                    i <= n,
                    n == vs@.len(),
                    *v == Value::Arr(*vs),
                    out@ == old(out)@ + seq!['['] + spec_json_values(vs@.take(i as int)),
                decreases n - i,
            {
                proof {
                    reveal_strlit(",");
                }
                if i > 0 {
                    out.append(",");
                }
                proof {
                    broadcast use vstd::std_specs::vec::axiom_vec_index_decreases;

                    assert(v->Arr_0 == *vs);
                    assert(decreases_to!(*v => v->Arr_0));
                    assert(decreases_to!(*vs => vs[i as int]));
                }
                emit_value(out, &vs[i]);
                proof {
                    assert(vs@.take(i + 1).drop_last() =~= vs@.take(i as int));
                    assert(vs@.take(i + 1).last() == vs@[i as int]);
                    if i == 0 {
                        assert(spec_json_values(vs@.take(1)) == spec_json_value(vs@[0]));
                    }
                    assert(out@ =~= old(out)@ + seq!['['] + spec_json_values(vs@.take(i + 1)));
                }
                i += 1;
            }
            out.append("]");
            proof {
                assert(vs@.take(n as int) =~= vs@);
                assert(out@ =~= old(out)@ + spec_json_value(*v));
            }
        },
        Value::Obj(es) => {
            emit_obj_body(out, es);
            proof {
                assert(out@ =~= old(out)@ + spec_json_value(*v));
            }
        },
    }
}

/// Appends `{`, the entries in order, `}`.
pub fn emit_obj_body(out: &mut String, es: &Vec<(String, Value)>)
    ensures
        final(out)@ == old(out)@ + spec_json_obj(es@),
    decreases es, 1int,
{
    proof {
        reveal_strlit("{");
        reveal_strlit("}");
        reveal_strlit(",");
        reveal_strlit("\"");
        reveal_strlit("\":");
    }
    out.append("{");
    let n = es.len();
    let mut i: usize = 0;
    proof {
        assert(es@.take(0) =~= Seq::<(String, Value)>::empty());
        assert(out@ =~= old(out)@ + seq!['{'] + spec_json_entries(es@.take(0)));
    }
    while i < n
        invariant
            i <= n,
            n == es@.len(),
            out@ == old(out)@ + seq!['{'] + spec_json_entries(es@.take(i as int)),
        decreases n - i,
    {
        proof {
            reveal_strlit(",");
            reveal_strlit("\"");
            reveal_strlit("\":");
        }
        if i > 0 {
            out.append(",");
        }
        let mut piece = String::new();
        piece.append("\"");
        escape_into(&mut piece, es[i].0.as_str());
        piece.append("\":");
        proof {
            broadcast use vstd::std_specs::vec::axiom_vec_index_decreases;

            assert(decreases_to!(*es => es[i as int]));
            assert(piece@ =~= seq!['"'] + spec_escape(es@[i as int].0@) + seq!['"', ':']);
        }
        emit_value(&mut piece, &es[i].1);
        proof {
            assert(piece@ =~= spec_json_entry(es@[i as int].0@, es@[i as int].1));
        }
        out.append(piece.as_str());
        proof {
            assert(es@.take(i + 1).drop_last() =~= es@.take(i as int));
            assert(es@.take(i + 1).last() == es@[i as int]);
            if i == 0 {
                assert(spec_json_entries(es@.take(1)) == spec_json_entry(es@[0].0@, es@[0].1));
            }
            assert(out@ =~= old(out)@ + seq!['{'] + spec_json_entries(es@.take(i + 1)));
        }
        i += 1;
    }
    out.append("}");
    proof {
        assert(es@.take(n as int) =~= es@);
        assert(out@ =~= old(out)@ + spec_json_obj(es@));
    }
}

/// The JSON record for one event.
pub fn json_of_event(e: &LogEvent) -> (r: String)
    ensures
        r@ == spec_json_obj(e.fields@),
{
    let mut out = String::new();
    emit_obj_body(&mut out, &e.fields);
    proof {
        assert(out@ =~= spec_json_obj(e.fields@));
    }
    out
}


/// No rendered character is a raw newline: a newline in a string value
/// renders as the two characters `\\n`.
pub open spec fn newline_free(s: Seq<char>) -> bool {
    forall|i: int| 0 <= i < s.len() ==> s[i] != '\n'
}

pub proof fn lemma_newline_free_concat(a: Seq<char>, b: Seq<char>)
    requires
        newline_free(a),
        newline_free(b),
    ensures
        newline_free(a + b),
{
    assert forall|i: int| 0 <= i < (a + b).len() implies (a + b)[i] != '\n' by {
        if i < a.len() {
            assert((a + b)[i] == a[i]);
        } else {
            assert((a + b)[i] == b[i - a.len()]);
        }
    }
}

pub proof fn lemma_escape_char_newline_free(c: char)
    ensures
        newline_free(spec_escape_char(c)),
{
}

pub proof fn lemma_escape_newline_free(s: Seq<char>)
    ensures
        newline_free(spec_escape(s)),
    decreases s.len(),
{
    if s.len() > 0 {
        lemma_escape_char_newline_free(s[0]);
        lemma_escape_newline_free(s.skip(1));
        lemma_newline_free_concat(spec_escape_char(s[0]), spec_escape(s.skip(1)));
    }
}

pub proof fn lemma_dec_newline_free(n: int)
    ensures
        newline_free(spec_dec(n)),
    decreases n,
{
    if n >= 10 {
        lemma_dec_newline_free(n / 10);
        assert(newline_free(seq![spec_digit(n % 10)]));
        lemma_newline_free_concat(spec_dec(n / 10), seq![spec_digit(n % 10)]);
    } else {
        assert(newline_free(seq![spec_digit(n)]));
    }
}

#[verifier::rlimit(60)]
pub proof fn lemma_rfc3339_newline_free(ms: int)
    ensures
        newline_free(spec_rfc3339_millis(ms)),
{
    let days = ms / 86_400_000;
    let (y, m, d) = crate::datetime::spec_civil_from_days(days);
    lemma_dec_newline_free(y);
    assert forall|i: int| 0 <= i < spec_rfc3339_millis(ms).len() implies spec_rfc3339_millis(
        ms,
    )[i] != '\n' by {
        let r = spec_rfc3339_millis(ms);
        let yd = spec_dec(y);
        if i < yd.len() {
            assert(r[i] == yd[i]);
        }
    }
}

/// The JSON rendering of any value is newline-free.
pub proof fn lemma_json_value_newline_free(v: Value)
    ensures
        newline_free(spec_json_value(v)),
    decreases v, 0int,
{
    match v {
        Value::Str(s) => {
            lemma_escape_newline_free(s@);
            assert(newline_free(seq!['"']));
            lemma_newline_free_concat(seq!['"'], spec_escape(s@));
            lemma_newline_free_concat(seq!['"'] + spec_escape(s@), seq!['"']);
        },
        Value::Int(i) => {
            if i >= 0 {
                lemma_dec_newline_free(i as int);
            } else {
                lemma_dec_newline_free(-(i as int));
                assert(newline_free(seq!['-']));
                lemma_newline_free_concat(seq!['-'], spec_dec(-(i as int)));
            }
        },
        Value::Bool(b) => {
            reveal_strlit("true");
            reveal_strlit("false");
        },
        Value::Ts(ms) => {
            lemma_rfc3339_newline_free(ms as int);
            assert(newline_free(seq!['"']));
            lemma_newline_free_concat(seq!['"'], spec_rfc3339_millis(ms as int));
            lemma_newline_free_concat(seq!['"'] + spec_rfc3339_millis(ms as int), seq!['"']);
        },
        Value::Arr(vs) => {
            assert(decreases_to!(v => v->Arr_0));
            lemma_json_values_newline_free(vs@);
            assert(newline_free(seq!['[']));
            lemma_newline_free_concat(seq!['['], spec_json_values(vs@));
            lemma_newline_free_concat(seq!['['] + spec_json_values(vs@), seq![']']);
        },
        Value::Obj(es) => {
            assert(decreases_to!(v => v->Obj_0));
            lemma_json_entries_newline_free(es@);
        },
    }
}

pub proof fn lemma_json_values_newline_free(vs: Seq<Value>)
    ensures
        newline_free(spec_json_values(vs)),
    decreases vs, 1int,
{
    broadcast use vstd::seq::axiom_seq_index_decreases;

    if vs.len() == 1 {
        lemma_json_value_newline_free(vs[0]);
    } else if vs.len() > 1 {
        lemma_json_values_newline_free(vs.drop_last());
        lemma_json_value_newline_free(vs.last());
        assert(newline_free(seq![',']));
        lemma_newline_free_concat(spec_json_values(vs.drop_last()), seq![',']);
        lemma_newline_free_concat(
            spec_json_values(vs.drop_last()) + seq![','],
            spec_json_value(vs.last()),
        );
    }
}

proof fn lemma_json_entry_parts_newline_free(k: Seq<char>, v: Value)
    requires
        newline_free(spec_escape(k)),
        newline_free(spec_json_value(v)),
    ensures
        newline_free(spec_json_entry(k, v)),
{
    assert(newline_free(seq!['"']));
    assert(newline_free(seq!['"', ':']));
    lemma_newline_free_concat(seq!['"'], spec_escape(k));
    lemma_newline_free_concat(seq!['"'] + spec_escape(k), seq!['"', ':']);
    lemma_newline_free_concat(seq!['"'] + spec_escape(k) + seq!['"', ':'], spec_json_value(v));
}

pub proof fn lemma_json_entries_newline_free(es: Seq<(String, Value)>)
    ensures
        newline_free(spec_json_entries(es)),
    decreases es, 2int,
{
    broadcast use vstd::seq::axiom_seq_index_decreases;

    if es.len() == 1 {
        lemma_escape_newline_free(es[0].0@);
        lemma_json_value_newline_free(es[0].1);
        lemma_json_entry_parts_newline_free(es[0].0@, es[0].1);
    } else if es.len() > 1 {
        lemma_json_entries_newline_free(es.drop_last());
        lemma_escape_newline_free(es.last().0@);
        lemma_json_value_newline_free(es.last().1);
        lemma_json_entry_parts_newline_free(es.last().0@, es.last().1);
        assert(newline_free(seq![',']));
        lemma_newline_free_concat(spec_json_entries(es.drop_last()), seq![',']);
        lemma_newline_free_concat(
            spec_json_entries(es.drop_last()) + seq![','],
            spec_json_entry(es.last().0@, es.last().1),
        );
    }
}

/// A whole JSON record is newline-free.
pub proof fn lemma_json_obj_newline_free(es: Seq<(String, Value)>)
    ensures
        newline_free(spec_json_obj(es)),
{
    lemma_json_entries_newline_free(es);
    assert(newline_free(seq!['{']));
    assert(newline_free(seq!['}']));
    lemma_newline_free_concat(seq!['{'], spec_json_entries(es));
    lemma_newline_free_concat(seq!['{'] + spec_json_entries(es), seq!['}']);
}


/// The value of one hexadecimal digit character.
pub open spec fn spec_hex_val(c: char) -> int {
    if 48 <= c as int <= 57 {
        c as int - 48
    } else {
        c as int - 87
    }
}

pub open spec fn spec_is_hex_digit(c: char) -> bool {
    (48 <= c as int <= 57) || (97 <= c as int <= 102)
}

proof fn lemma_hex_digit_val(d: int)
    requires
        0 <= d < 16,
    ensures
        spec_is_hex_digit(spec_hex_digit(d)),
        spec_hex_val(spec_hex_digit(d)) == d,
{
}

pub open spec fn opt_cons(c: char, rest: Option<Seq<char>>) -> Option<Seq<char>> {
    match rest {
        Some(s) => Some(seq![c] + s),
        None => None,
    }
}

/// Decodes the escape sequences of a JSON string body; malformed input
/// decodes to nothing.
pub open spec fn spec_unescape(t: Seq<char>) -> Option<Seq<char>>
    decreases t.len(),
{
    if t.len() == 0 {
        Some(Seq::empty())
    } else if t[0] == '\\' {
        if t.len() >= 2 && t[1] == '"' {
            opt_cons('"', spec_unescape(t.skip(2)))
        } else if t.len() >= 2 && t[1] == '\\' {
            opt_cons('\\', spec_unescape(t.skip(2)))
        } else if t.len() >= 2 && t[1] == 'n' {
            opt_cons('\n', spec_unescape(t.skip(2)))
        } else if t.len() >= 2 && t[1] == 'r' {
            opt_cons('\r', spec_unescape(t.skip(2)))
        } else if t.len() >= 2 && t[1] == 't' {
            opt_cons('\t', spec_unescape(t.skip(2)))
        } else if t.len() >= 6 && t[1] == 'u' && t[2] == '0' && t[3] == '0' && spec_is_hex_digit(
            t[4],
        ) && spec_is_hex_digit(t[5]) {
            opt_cons(
                ((16 * spec_hex_val(t[4]) + spec_hex_val(t[5])) as u8) as char,
                spec_unescape(t.skip(6)),
            )
        } else {
            None
        }
    } else {
        opt_cons(t[0], spec_unescape(t.skip(1)))
    }
}

/// Every character carries a Unicode scalar value; spec-level character
/// sequences state it explicitly where a proof divides a code point.
pub open spec fn valid_code_points(s: Seq<char>) -> bool {
    forall|i: int| 0 <= i < s.len() ==> 0 <= (#[trigger] s[i]) as int
}

/// Witnesses, from the executable side where the character range is
/// known, that a string's characters carry valid code points.
pub fn observe_code_points(s: &str)
    ensures
        valid_code_points(s@),
{
    let len = s.unicode_len();
    let mut i: usize = 0;
    while i < len
        invariant
            i <= len,
            len == s@.len(),
            forall|j: int| 0 <= j < i ==> 0 <= (#[trigger] s@[j]) as int,
        decreases len - i,
    {
        let c = s.get_char(i);
        proof {
            assert(c == s@[i as int]);
            assert(0 <= c as int);
        }
        i += 1;
    }
}

/// Escaping loses nothing: decoding the escape sequences of an escaped
/// string yields exactly the original characters.
pub proof fn lemma_unescape_escape_id(s: Seq<char>)
    requires
        valid_code_points(s),
    ensures
        spec_unescape(spec_escape(s)) == Some(s),
    decreases s.len(),
{
    if s.len() == 0 {
        assert(spec_escape(s) =~= Seq::<char>::empty());
    } else {
        assert(valid_code_points(s.skip(1))) by {
            assert forall|i: int| 0 <= i < s.skip(1).len() implies 0 <= (#[trigger] s.skip(
                1,
            )[i]) as int by {
                assert(s.skip(1)[i] == s[i + 1]);
            }
        }
        lemma_unescape_escape_id(s.skip(1));
        assert(0 <= (s[0] as int));
        let c = s[0];
        let t = spec_escape(s);
        let e = spec_escape_char(c);
        assert(t == e + spec_escape(s.skip(1)));
        assert(t.len() == e.len() + spec_escape(s.skip(1)).len());
        assert forall|i: int| 0 <= i < e.len() implies t[i] == e[i] by {}
        if c == '"' || c == '\\' || c == '\n' || c == '\r' || c == '\t' {
            assert(t.skip(2) =~= spec_escape(s.skip(1)));
            assert(spec_unescape(t) == opt_cons(c, Some(s.skip(1))));
        } else if (c as int) < 0x20 {
            assert(t[0] == '\\' && t[1] == 'u' && t[2] == '0' && t[3] == '0');
            assert(t[4] == spec_hex_digit(c as int / 16));
            assert(t[5] == spec_hex_digit(c as int % 16));
            assert((c as int) < 0x20);
            lemma_hex_digit_val(c as int / 16);
            lemma_hex_digit_val(c as int % 16);
            assert(spec_is_hex_digit(t[4]) && spec_hex_val(t[4]) == c as int / 16);
            assert(spec_is_hex_digit(t[5]) && spec_hex_val(t[5]) == c as int % 16);
            assert(16 * (c as int / 16) + c as int % 16 == c as int);
            assert((((16 * spec_hex_val(t[4]) + spec_hex_val(t[5])) as u8) as char) == c);
            assert(t.skip(6) =~= spec_escape(s.skip(1)));
            assert(spec_unescape(t) == opt_cons(c, Some(s.skip(1))));
        } else {
            assert(t[0] == c && c != '\\');
            assert(t.skip(1) =~= spec_escape(s.skip(1)));
            assert(spec_unescape(t) == opt_cons(c, Some(s.skip(1))));
        }
        assert(seq![c] + s.skip(1) =~= s);
    }
}

} // verus!
