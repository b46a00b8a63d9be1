//! A JSON value as the worker handles one: the executable
//! representation, its mathematical model, and a serializer whose
//! output is pinned down character by character.
//!
//! The worker never computes with numbers it carries, so a number is
//! either an integer (`Int`, every number the worker produces itself)
//! or an opaque number token (`Num`): the decimal text of a
//! fractional or out-of-range number, emitted bare — exactly as it
//! stood in the document it came from.

use crate::text::int_dec_of;
use crate::text::i64_to_string;
use vstd::prelude::*;
use vstd::string::StrSliceExecFns;
use vstd::string::StringExecFns;

verus! {

/// The mathematical model of a JSON value.
#[verifier::ext_equal]
pub enum Json {
    Null,
    Bool(bool),
    Int(int),
    Num(Seq<char>),
    Str(Seq<char>),
    Arr(Seq<Json>),
    Obj(Seq<(Seq<char>, Json)>),
}

/// The executable representation of a JSON value; `@` gives the
/// [`Json`] it stands for.
pub enum JsonValue {
    Null,
    Bool(bool),
    Int(i64),
    Num(String),
    Str(String),
    Arr(Vec<JsonValue>),
    Obj(Vec<(String, JsonValue)>),
}

/// The models of a sequence of values, elementwise.
pub open spec fn arr_view(items: Seq<JsonValue>) -> Seq<Json>
    decreases items,
{
    if items.len() == 0 {
        Seq::empty()
    } else {
        arr_view(items.drop_last()).push(items.last()@)
    }
}

/// The models of a sequence of members, elementwise.
pub open spec fn obj_view(fields: Seq<(String, JsonValue)>) -> Seq<(Seq<char>, Json)>
    decreases fields,
{
    if fields.len() == 0 {
        Seq::empty()
    } else {
        obj_view(fields.drop_last()).push((fields.last().0@, fields.last().1@))
    }
}

impl View for JsonValue {
    type V = Json;

    open spec fn view(&self) -> Json
        decreases self,
    {
        match self {
            JsonValue::Null => Json::Null,
            JsonValue::Bool(b) => Json::Bool(*b),
            JsonValue::Int(i) => Json::Int(*i as int),
            JsonValue::Num(t) => Json::Num(t@),
            JsonValue::Str(s) => Json::Str(s@),
            JsonValue::Arr(items) => Json::Arr(arr_view(items@)),
            JsonValue::Obj(fields) => Json::Obj(obj_view(fields@)),
        }
    }
}

pub proof fn lemma_arr_view(items: Seq<JsonValue>)
    ensures
        arr_view(items).len() == items.len(),
        forall|i: int| 0 <= i < items.len() ==> arr_view(items)[i] == #[trigger] items[i]@,
    decreases items,
{
    if items.len() > 0 {
        lemma_arr_view(items.drop_last());
        assert(arr_view(items) == arr_view(items.drop_last()).push(items.last()@));
        assert forall|i: int| 0 <= i < items.len() implies arr_view(items)[i] == #[trigger] items[
            i
        ]@ by {
            if i < items.len() - 1 {
                assert(items.drop_last()[i] == items[i]);
            } else {
                assert(items.last() == items[i]);
            }
        }
    }
}

pub proof fn lemma_obj_view(fields: Seq<(String, JsonValue)>)
    ensures
        obj_view(fields).len() == fields.len(),
        forall|i: int| 0 <= i < fields.len() ==> obj_view(fields)[i] == (
            #[trigger] fields[i].0@,
            fields[i].1@,
        ),
    decreases fields,
{
    if fields.len() > 0 {
        lemma_obj_view(fields.drop_last());
        assert(obj_view(fields) == obj_view(fields.drop_last()).push(
            (fields.last().0@, fields.last().1@),
        ));
        assert forall|i: int| 0 <= i < fields.len() implies obj_view(fields)[i] == (
            #[trigger] fields[i].0@,
            fields[i].1@,
        ) by {
            if i < fields.len() - 1 {
                assert(fields.drop_last()[i] == fields[i]);
            } else {
                assert(fields.last() == fields[i]);
            }
        }
    }
}

impl JsonValue {
    /// A structural copy of the value.
    pub fn clone_value(&self) -> (r: JsonValue)
        ensures
            r@ == self@,
        decreases self,
    {
        match self {
            JsonValue::Null => JsonValue::Null,
            JsonValue::Bool(b) => JsonValue::Bool(*b),
            JsonValue::Int(i) => JsonValue::Int(*i),
            JsonValue::Num(t) => JsonValue::Num(t.clone()),
            JsonValue::Str(s) => JsonValue::Str(s.clone()),
            JsonValue::Arr(items) => {
                let mut out: Vec<JsonValue> = Vec::new();
                let mut i: usize = 0;
                while i < items.len()
                    invariant
                        self is Arr,
                        self->Arr_0 == *items,
                        0 <= i <= items.len(),
                        out@.len() == i,
                        forall|j: int| 0 <= j < i ==> out@[j]@ == items@[j]@,
                    decreases items.len() - i,
                {
                    proof {
                        assert(self->Arr_0 == *items);
                        assert(decreases_to!(*self => self->Arr_0));
                        assert(decreases_to!(self->Arr_0 => items@));
                        assert(decreases_to!(items@ => items@[i as int]));
                    }
                    out.push(items[i].clone_value());
                    i += 1;
                }
                proof {
                    lemma_arr_view(out@);
                    lemma_arr_view(items@);
                    assert forall|k: int| 0 <= k < out@.len() implies arr_view(out@)[k]
                        == arr_view(items@)[k] by {
                        assert(out@[k]@ == items@[k]@);
                    }
                    assert(arr_view(out@) =~= arr_view(items@));
                }
                JsonValue::Arr(out)
            },
            JsonValue::Obj(fields) => {
                let mut out: Vec<(String, JsonValue)> = Vec::new();
                let mut i: usize = 0;
                while i < fields.len()
                    invariant
                        self is Obj,
                        self->Obj_0 == *fields,
                        0 <= i <= fields.len(),
                        out@.len() == i,
                        forall|j: int| 0 <= j < i ==> out@[j].0@ == fields@[j].0@
                            && out@[j].1@ == fields@[j].1@,
                    decreases fields.len() - i,
                {
                    let (k, v) = &fields[i];
                    proof {
                        assert(self->Obj_0 == *fields);
                        assert(decreases_to!(*self => self->Obj_0));
                        assert(decreases_to!(self->Obj_0 => fields@));
                        assert(decreases_to!(fields@ => fields@[i as int]));
                        assert(decreases_to!(fields@[i as int] => fields@[i as int].1));
                    }
                    out.push((k.clone(), v.clone_value()));
                    i += 1;
                }
                proof {
                    lemma_obj_view(out@);
                    lemma_obj_view(fields@);
                    assert forall|k: int| 0 <= k < out@.len() implies obj_view(out@)[k]
                        == obj_view(fields@)[k] by {
                        assert(out@[k].0@ == fields@[k].0@ && out@[k].1@ == fields@[k].1@);
                    }
                    assert(obj_view(out@) =~= obj_view(fields@));
                }
                JsonValue::Obj(out)
            },
        }
    }
}

/// The hexadecimal digit `d` as a lower-case character.
pub open spec fn hex_char(d: nat) -> char {
    if d == 0 {
        '0'
    } else if d == 1 {
        '1'
    } else if d == 2 {
        '2'
    } else if d == 3 {
        '3'
    } else if d == 4 {
        '4'
    } else if d == 5 {
        '5'
    } else if d == 6 {
        '6'
    } else if d == 7 {
        '7'
    } else if d == 8 {
        '8'
    } else if d == 9 {
        '9'
    } else if d == 10 {
        'a'
    } else if d == 11 {
        'b'
    } else if d == 12 {
        'c'
    } else if d == 13 {
        'd'
    } else if d == 14 {
        'e'
    } else {
        'f'
    }
}

/// How a character appears inside a JSON string literal: quotes and
/// backslashes are escaped, control characters take their short or
/// `\u00XX` form, and anything else stands for itself.
pub open spec fn esc_char(c: char) -> Seq<char> {
    if c == '"' {
        "\\\""@
    } else if c == '\\' {
        "\\\\"@
    } else if c == '\n' {
        "\\n"@
    } else if c == '\r' {
        "\\r"@
    } else if c == '\t' {
        "\\t"@
    } else if c == '\u{8}' {
        "\\b"@
    } else if c == '\u{c}' {
        "\\f"@
    } else if (c as u32) < 32 {
        "\\u00"@ + seq![
            hex_char((c as u32 / 16) as nat),
            hex_char((c as u32 % 16) as nat),
        ]
    } else {
        seq![c]
    }
}

/// The body of a JSON string literal encoding `s`.
pub open spec fn esc_str(s: Seq<char>) -> Seq<char>
    decreases s.len(),
{
    if s.len() == 0 {
        Seq::empty()
    } else {
        esc_str(s.drop_last()) + esc_char(s.last())
    }
}

/// The JSON string literal encoding `s`, quotes included.
pub open spec fn quoted(s: Seq<char>) -> Seq<char> {
    "\""@ + esc_str(s) + "\""@
}

/// The compact JSON text of a value: no spaces, members in order,
/// integers in decimal.
pub open spec fn json_text_of(j: Json) -> Seq<char>
    decreases j,
{
    match j {
        Json::Null => "null"@,
        Json::Bool(b) => if b {
            "true"@
        } else {
            "false"@
        },
        Json::Int(i) => int_dec_of(i),
        Json::Num(t) => t,
        Json::Str(s) => quoted(s),
        Json::Arr(items) => "["@ + json_arr_text(items) + "]"@,
        Json::Obj(fields) => "{"@ + json_obj_text(fields) + "}"@,
    }
}

/// The comma-separated texts of array elements.
pub open spec fn json_arr_text(items: Seq<Json>) -> Seq<char>
    decreases items,
{
    if items.len() == 0 {
        Seq::empty()
    } else if items.len() == 1 {
        json_text_of(items[0])
    } else {
        json_arr_text(items.drop_last()) + ","@ + json_text_of(items.last())
    }
}

/// The text of one object member: quoted key, colon, value.
pub open spec fn json_member_text(f: (Seq<char>, Json)) -> Seq<char>
    decreases f,
{
    quoted(f.0) + ":"@ + json_text_of(f.1)
}

/// The comma-separated texts of object members.
pub open spec fn json_obj_text(fields: Seq<(Seq<char>, Json)>) -> Seq<char>
    decreases fields,
{
    if fields.len() == 0 {
        Seq::empty()
    } else if fields.len() == 1 {
        json_member_text(fields[0])
    } else {
        json_obj_text(fields.drop_last()) + ","@ + json_member_text(fields.last())
    }
}

fn hex_str(d: u32) -> (r: &'static str)
    requires
        d < 16,
    ensures
        r@.len() == 1,
        r@[0] == hex_char(d as nat),
{
    proof {
        reveal_strlit("0");
        reveal_strlit("1");
        reveal_strlit("2");
        reveal_strlit("3");
        reveal_strlit("4");
        reveal_strlit("5");
        reveal_strlit("6");
        reveal_strlit("7");
        reveal_strlit("8");
        reveal_strlit("9");
        reveal_strlit("a");
        reveal_strlit("b");
        reveal_strlit("c");
        reveal_strlit("d");
        reveal_strlit("e");
        reveal_strlit("f");
    }
    match d {
        0 => "0",
        1 => "1",
        2 => "2",
        3 => "3",
        4 => "4",
        5 => "5",
        6 => "6",
        7 => "7",
        8 => "8",
        9 => "9",
        10 => "a",
        11 => "b",
        12 => "c",
        13 => "d",
        14 => "e",
        _ => "f",
    }
}

/// Appends the escaped body of a JSON string literal for `s`.
fn append_escaped(s: &str, out: &mut String)
    ensures
        final(out)@ == old(out)@ + esc_str(s@),
{
    let n = s.unicode_len();
    let mut i: usize = 0;
    proof {
        assert(s@.take(0) =~= Seq::<char>::empty());
        assert(old(out)@ + esc_str(s@.take(0)) =~= old(out)@);
    }
    while i < n
        invariant
            0 <= i <= n,
            n == s@.len(),
            out@ == old(out)@ + esc_str(s@.take(i as int)),
        decreases n - i,
    {
        let ghost pre = out@;
        let c = s.get_char(i);
        if c == '"' {
            out.append("\\\"");
        } else if c == '\\' {
            out.append("\\\\");
        } else if c == '\n' {
            out.append("\\n");
        } else if c == '\r' {
            out.append("\\r");
        } else if c == '\t' {
            out.append("\\t");
        } else if c == '\u{8}' {
            out.append("\\b");
        } else if c == '\u{c}' {
            out.append("\\f");
        } else if (c as u32) < 32 {
            let d = c as u32;
            out.append("\\u00");
            out.append(hex_str(d / 16));
            out.append(hex_str(d % 16));
            proof {
                assert(out@ =~= pre + esc_char(c));
            }
        } else {
            let piece = s.substring_char(i, i + 1);
            proof {
                assert(piece@ =~= seq![s@[i as int]]);
            }
            out.append(piece);
        }
        proof {
            assert(s@.take(i + 1).drop_last() =~= s@.take(i as int));
            assert(s@.take(i + 1).last() == s@[i as int]);
            assert(esc_str(s@.take(i + 1)) == esc_str(s@.take(i as int)) + esc_char(
                s@[i as int],
            ));
            assert(out@ =~= old(out)@ + esc_str(s@.take(i + 1)));
        }
        i += 1;
    }
    proof {
        assert(s@.take(n as int) =~= s@);
    }
}

/// Appends the JSON string literal for `s`, quotes included.
pub fn append_quoted(s: &str, out: &mut String)
    ensures
        final(out)@ == old(out)@ + quoted(s@),
{
    out.append("\"");
    append_escaped(s, out);
    out.append("\"");
    proof {
        assert(final(out)@ =~= old(out)@ + quoted(s@));
    }
}

/// Appends the compact JSON text of `v`.
pub fn write_json(v: &JsonValue, out: &mut String)
    ensures
        final(out)@ == old(out)@ + json_text_of(v@),
    decreases v,
{
    match v {
        JsonValue::Null => {
            out.append("null");
        },
        JsonValue::Bool(b) => {
            if *b {
                out.append("true");
            } else {
                out.append("false");
            }
        },
        JsonValue::Int(i) => {
            let t = i64_to_string(*i);
            out.append(t.as_str());
        },
        JsonValue::Num(t) => {
            out.append(t.as_str());
        },
        JsonValue::Str(s) => {
            append_quoted(s.as_str(), out);
        },
        JsonValue::Arr(items) => {
            let ghost js = arr_view(items@);
            proof {
                lemma_arr_view(items@);
            }
            out.append("[");
            let mut i: usize = 0;
            proof {
                assert(js.take(0) =~= Seq::<Json>::empty());
                assert(out@ =~= old(out)@ + "["@ + json_arr_text(js.take(0)));
            }
            while i < items.len()
                invariant
                    v is Arr,
                    v->Arr_0 == *items,
                    js == arr_view(items@),
                    js.len() == items@.len(),
                    forall|k: int| 0 <= k < items@.len() ==> js[k] == #[trigger] items@[k]@,
                    0 <= i <= items@.len(),
                    out@ == old(out)@ + "["@ + json_arr_text(js.take(i as int)),
                decreases items@.len() - i,
            {
                let ghost pre = out@;
                if i > 0 {
                    out.append(",");
                }
                proof {
                    assert(v->Arr_0 == *items);
                    assert(decreases_to!(*v => v->Arr_0));
                    assert(decreases_to!(v->Arr_0 => items@));
                    assert(decreases_to!(items@ => items@[i as int]));
                }
                write_json(&items[i], out);
                proof {
                    assert(js.take(i + 1).drop_last() =~= js.take(i as int));
                    assert(js.take(i + 1).last() == js[i as int]);
                    if i == 0 {
                        assert(json_arr_text(js.take(1)) == json_text_of(js[0]));
                        assert(out@ =~= old(out)@ + "["@ + json_arr_text(js.take(i + 1)));
                    } else {
                        assert(json_arr_text(js.take(i + 1)) == json_arr_text(js.take(i as int))
                            + ","@ + json_text_of(js[i as int]));
                        assert(out@ =~= old(out)@ + "["@ + json_arr_text(js.take(i + 1)));
                    }
                }
                i += 1;
            }
            out.append("]");
            proof {
                assert(js.take(js.len() as int) =~= js);
                assert(final(out)@ =~= old(out)@ + json_text_of(v@));
            }
        },
        JsonValue::Obj(fields) => {
            let ghost js = obj_view(fields@);
            proof {
                lemma_obj_view(fields@);
            }
            out.append("{");
            let mut i: usize = 0;
            proof {
                assert(js.take(0) =~= Seq::<(Seq<char>, Json)>::empty());
                assert(out@ =~= old(out)@ + "{"@ + json_obj_text(js.take(0)));
            }
            while i < fields.len()
                invariant
                    v is Obj,
                    v->Obj_0 == *fields,
                    js == obj_view(fields@),
                    js.len() == fields@.len(),
                    forall|k: int| 0 <= k < fields@.len() ==> js[k] == (
                        #[trigger] fields@[k].0@,
                        fields@[k].1@,
                    ),
                    0 <= i <= fields@.len(),
                    out@ == old(out)@ + "{"@ + json_obj_text(js.take(i as int)),
                decreases fields@.len() - i,
            {
                if i > 0 {
                    out.append(",");
                }
                let (k, val) = &fields[i];
                append_quoted(k.as_str(), out);
                out.append(":");
                proof {
                    assert(v->Obj_0 == *fields);
                    assert(decreases_to!(*v => v->Obj_0));
                    assert(decreases_to!(v->Obj_0 => fields@));
                    assert(decreases_to!(fields@ => fields@[i as int]));
                    assert(decreases_to!(fields@[i as int] => fields@[i as int].1));
                }
                write_json(val, out);
                proof {
                    assert(js.take(i + 1).drop_last() =~= js.take(i as int));
                    assert(js.take(i + 1).last() == js[i as int]);
                    assert(json_member_text(js[i as int]) == quoted(fields@[i as int].0@) + ":"@
                        + json_text_of(fields@[i as int].1@));
                    if i == 0 {
                        assert(json_obj_text(js.take(1)) == json_member_text(js[0]));
                        assert(out@ =~= old(out)@ + "{"@ + json_obj_text(js.take(i + 1)));
                    } else {
                        assert(json_obj_text(js.take(i + 1)) == json_obj_text(js.take(i as int))
                            + ","@ + json_member_text(js[i as int]));
                        assert(out@ =~= old(out)@ + "{"@ + json_obj_text(js.take(i + 1)));
                    }
                }
                i += 1;
            }
            out.append("}");
            proof {
                assert(js.take(js.len() as int) =~= js);
                assert(final(out)@ =~= old(out)@ + json_text_of(v@));
            }
        },
    }
}

/// The compact JSON text of `v`.
pub fn to_json_string(v: &JsonValue) -> (r: String)
    ensures
        r@ == json_text_of(v@),
{
    let mut out = String::new();
    write_json(v, &mut out);
    proof {
        assert(out@ =~= json_text_of(v@));
    }
    out
}

} // verus!
