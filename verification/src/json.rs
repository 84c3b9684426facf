//! The structured payload of a log entry, and its rendering as JSON text.
//! The wire format is one JSON object per line; this module pins the exact
//! character sequence every value serializes to.

use vstd::prelude::*;
use vstd::string::StringExecFns;
use crate::text::{dec_digits, digit_char, push_char, push_decimal};

verus! {

/// A structured value: what a log entry may carry as its payload.
#[derive(Debug)]
pub enum JsonValue {
    /// The JSON `null`.
    Null,
    /// A JSON boolean.
    Bool(bool),
    /// A JSON number, restricted to integers.
    Int(i64),
    /// A JSON string.
    Str(String),
    /// A JSON array.
    Arr(Vec<JsonValue>),
    /// A JSON object, as ordered key-value pairs.
    Obj(Vec<(String, JsonValue)>),
}

/// The character for one hexadecimal digit.
pub open spec fn hex_digit(d: int) -> char {
    if d < 10 {
        digit_char(d)
    } else if d == 10 {
        'a'
    } else if d == 11 {
        'b'
    } else if d == 12 {
        'c'
    } else if d == 13 {
        'd'
    } else if d == 14 {
        'e'
    } else {
        'f'
    }
}

/// How one character appears inside a JSON string literal: quotes and
/// backslashes are escaped, control characters use the short escapes or a
/// `\u00XX` sequence, and every other character stands for itself.
pub open spec fn escaped_char(c: char) -> Seq<char> {
    if c == '"' {
        seq!['\\', '"']
    } else if c == '\\' {
        seq!['\\', '\\']
    } else if c == '\n' {
        seq!['\\', 'n']
    } else if c == '\r' {
        seq!['\\', 'r']
    } else if c == '\t' {
        seq!['\\', 't']
    } else if (c as u32) < 32 {
        seq!['\\', 'u', '0', '0', hex_digit((c as u32 / 16) as int), hex_digit((c as u32 % 16) as int)]
    } else {
        seq![c]
    }
}

/// The body of a JSON string literal for `s`: each character escaped.
pub open spec fn escape_str(s: Seq<char>) -> Seq<char>
    decreases s.len(),
{
    if s.len() == 0 {
        Seq::empty()
    } else {
        escape_str(s.take(s.len() - 1)) + escaped_char(s.last())
    }
}

/// The JSON string literal for `s`, quotes included.
pub open spec fn quoted(s: Seq<char>) -> Seq<char> {
    seq!['"'] + escape_str(s) + seq!['"']
}

/// The JSON text of an integer: an optional minus sign and the decimal
/// digits.
pub open spec fn int_text(i: int) -> Seq<char> {
    if i < 0 {
        seq!['-'] + dec_digits((-i) as nat)
    } else {
        dec_digits(i as nat)
    }
}

/// The JSON text of a value, with no whitespace between tokens.
pub open spec fn json_text(v: JsonValue) -> Seq<char>
    decreases v,
{
    match v {
        JsonValue::Null => "null"@,
        JsonValue::Bool(b) => if b {
            "true"@
        } else {
            "false"@
        },
        JsonValue::Int(i) => int_text(i as int),
        JsonValue::Str(s) => quoted(s@),
        JsonValue::Arr(items) => seq!['['] + items_text(items@) + seq![']'],
        JsonValue::Obj(fields) => seq!['{'] + fields_text(fields@) + seq!['}'],
    }
}

/// The comma-separated JSON texts of the elements of an array.
pub open spec fn items_text(items: Seq<JsonValue>) -> Seq<char>
    decreases items,
{
    if items.len() == 0 {
        Seq::empty()
    } else if items.len() == 1 {
        json_text(items[0])
    } else {
        items_text(items.take(items.len() - 1)) + seq![','] + json_text(items.last())
    }
}

/// The JSON text of one key-value pair of an object.
pub open spec fn field_text(f: (String, JsonValue)) -> Seq<char>
    decreases f,
{
    quoted(f.0@) + seq![':'] + json_text(f.1)
}

/// The comma-separated JSON texts of the fields of an object.
pub open spec fn fields_text(fields: Seq<(String, JsonValue)>) -> Seq<char>
    decreases fields,
{
    if fields.len() == 0 {
        Seq::empty()
    } else if fields.len() == 1 {
        field_text(fields[0])
    } else {
        fields_text(fields.take(fields.len() - 1)) + seq![','] + field_text(fields.last())
    }
}

/// One hexadecimal digit as a character.
fn hex_digit_exec(d: u32) -> (c: char)
    requires
        d < 16,
    ensures
        c == hex_digit(d as int),
{
    if d == 0 {
        '0'
    } else if d == 1 {
        '1'
    } else if d == 2 {
        '2'
    } else if d == 3 {
        '3'
    } else if d == 4 {
        '4'
    } else if d == 5 {
        '5'
    } else if d == 6 {
        '6'
    } else if d == 7 {
        '7'
    } else if d == 8 {
        '8'
    } else if d == 9 {
        '9'
    } else if d == 10 {
        'a'
    } else if d == 11 {
        'b'
    } else if d == 12 {
        'c'
    } else if d == 13 {
        'd'
    } else if d == 14 {
        'e'
    } else {
        'f'
    }
}

/// Append the escaped form of one character to `out`.
fn push_escaped(out: &mut String, c: char)
    ensures
        final(out)@ == old(out)@ + escaped_char(c),
{
    if c == '"' {
        out.append("\\\"");
        proof {
            reveal_strlit("\\\"");
            assert(out@ =~= old(out)@ + escaped_char(c));
        }
    } else if c == '\\' {
        out.append("\\\\");
        proof {
            reveal_strlit("\\\\");
            assert(out@ =~= old(out)@ + escaped_char(c));
        }
    } else if c == '\n' {
        out.append("\\n");
        proof {
            reveal_strlit("\\n");
            assert(out@ =~= old(out)@ + escaped_char(c));
        }
    } else if c == '\r' {
        out.append("\\r");
        proof {
            reveal_strlit("\\r");
            assert(out@ =~= old(out)@ + escaped_char(c));
        }
    } else if c == '\t' {
        out.append("\\t");
        proof {
            reveal_strlit("\\t");
            assert(out@ =~= old(out)@ + escaped_char(c));
        }
    } else if (c as u32) < 32 {
        let code = c as u32;
        out.append("\\u00");
        push_char(out, hex_digit_exec(code / 16));
        push_char(out, hex_digit_exec(code % 16));
        proof {
            reveal_strlit("\\u00");
            assert(out@ =~= old(out)@ + escaped_char(c));
        }
    } else {
        push_char(out, c);
        proof {
            assert(out@ =~= old(out)@ + escaped_char(c));
        }
    }
}

/// Append the JSON string literal for `s` to `out`, quotes included.
pub(crate) fn push_quoted(out: &mut String, s: &str)
    ensures
        final(out)@ == old(out)@ + quoted(s@),
{
    push_char(out, '"');
    let len = s.unicode_len();
    let mut i: usize = 0;
    while i < len
        invariant
            i <= len,
            len == s@.len(),
            out@ == old(out)@ + seq!['"'] + escape_str(s@.take(i as int)),
        decreases len - i,
    {
        let c = s.get_char(i);
        push_escaped(out, c);
        proof {
            let t = s@.take(i + 1);
            assert(t.take(t.len() - 1) =~= s@.take(i as int));
            assert(t.last() == s@[i as int]);
            assert(out@ =~= old(out)@ + seq!['"'] + escape_str(s@.take(i + 1)));
        }
        i = i + 1;
    }
    push_char(out, '"');
    proof {
        assert(s@.take(s@.len() as int) =~= s@);
        assert(out@ =~= old(out)@ + quoted(s@));
    }
}

/// Append the JSON text of an integer to `out`.
pub(crate) fn push_int(out: &mut String, i: i64)
    ensures
        final(out)@ == old(out)@ + int_text(i as int),
{
    if i < 0 {
        push_char(out, '-');
        let mag: u128 = (-(i as i128)) as u128;
        push_decimal(out, mag);
        proof {
            assert(mag as nat == (-(i as int)) as nat);
            assert(out@ =~= old(out)@ + int_text(i as int));
        }
    } else {
        let mag: u128 = i as u128;
        push_decimal(out, mag);
        proof {
            assert(mag as nat == (i as int) as nat);
            assert(out@ =~= old(out)@ + int_text(i as int));
        }
    }
}

impl JsonValue {
    /// Append this value's JSON text to `out`.
    pub fn write_text(&self, out: &mut String)
        ensures
            final(out)@ == old(out)@ + json_text(*self),
        decreases *self,
    {
        match self {
            JsonValue::Null => {
                out.append("null");
            },
            JsonValue::Bool(b) => {
                if *b {
                    out.append("true");
                } else {
                    out.append("false");
                }
            },
            JsonValue::Int(i) => {
                push_int(out, *i);
            },
            JsonValue::Str(s) => {
                push_quoted(out, s.as_str());
            },
            JsonValue::Arr(items) => {
                push_char(out, '[');
                let len = items.len();
                let mut i: usize = 0;
                while i < len
                    invariant
                        i <= len,
                        len == items@.len(),
                        *self == JsonValue::Arr(*items),
                        out@ == old(out)@ + seq!['['] + items_text(items@.take(i as int)),
                    decreases len - i,
                {
                    if i > 0 {
                        push_char(out, ',');
                    }
                    let item = &items[i];
                    proof {
                        assert(decreases_to!(*self => self->Arr_0));
                        assert(decreases_to!(self->Arr_0 => self->Arr_0@));
                        assert(decreases_to!(self->Arr_0@ => self->Arr_0@[i as int]));
                        assert(items@[i as int] == self->Arr_0@[i as int]);
                        assert(decreases_to!(*self => items@[i as int]));
                    }
                    item.write_text(out);
                    proof {
                        let t = items@.take(i + 1);
                        assert(t.take(t.len() - 1) =~= items@.take(i as int));
                        assert(t.last() == items@[i as int]);
                        assert(out@ =~= old(out)@ + seq!['['] + items_text(items@.take(i + 1)));
                    }
                    i = i + 1;
                }
                push_char(out, ']');
                proof {
                    assert(items@.take(items@.len() as int) =~= items@);
                    assert(out@ =~= old(out)@ + json_text(*self));
                }
            },
            JsonValue::Obj(fields) => {
                push_char(out, '{');
                let len = fields.len();
                let mut i: usize = 0;
                while i < len
                    invariant
                        i <= len,
                        len == fields@.len(),
                        *self == JsonValue::Obj(*fields),
                        out@ == old(out)@ + seq!['{'] + fields_text(fields@.take(i as int)),
                    decreases len - i,
                {
                    if i > 0 {
                        push_char(out, ',');
                    }
                    let pair = &fields[i];
                    push_quoted(out, pair.0.as_str());
                    push_char(out, ':');
                    proof {
                        assert(decreases_to!(*self => self->Obj_0));
                        assert(decreases_to!(self->Obj_0 => self->Obj_0@));
                        assert(decreases_to!(self->Obj_0@ => self->Obj_0@[i as int]));
                        assert(decreases_to!(self->Obj_0@[i as int] => self->Obj_0@[i as int].1));
                        assert(fields@[i as int].1 == self->Obj_0@[i as int].1);
                        assert(decreases_to!(*self => fields@[i as int].1));
                    }
                    pair.1.write_text(out);
                    proof {
                        let t = fields@.take(i + 1);
                        assert(t.take(t.len() - 1) =~= fields@.take(i as int));
                        assert(t.last() == fields@[i as int]);
                        assert(field_text(fields@[i as int]) == quoted(fields@[i as int].0@)
                            + seq![':'] + json_text(fields@[i as int].1));
                        assert(out@ =~= old(out)@ + seq!['{'] + fields_text(fields@.take(i + 1)));
                    }
                    i = i + 1;
                }
                push_char(out, '}');
                proof {
                    assert(fields@.take(fields@.len() as int) =~= fields@);
                    assert(out@ =~= old(out)@ + json_text(*self));
                }
            },
        }
    }

    /// This value's JSON text.
    pub fn to_text(&self) -> (r: String)
        ensures
            r@ == json_text(*self),
    {
        let mut out = String::new();
        self.write_text(&mut out);
        proof {
            assert(out@ =~= json_text(*self));
        }
        out
    }
}

} // verus!
