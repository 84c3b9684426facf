//! Decoding of the JSON string literals the encoder produces: the escape
//! scheme loses nothing, and parsing a produced literal gives back exactly
//! the characters that were encoded.

use vstd::prelude::*;
use crate::json::{escape_str, escaped_char, hex_digit, int_text, json_text, quoted, JsonValue};
use crate::log_entry::entry_json;
use crate::text::{dec_digits, digit_char};

verus! {

/// The value of one hexadecimal digit character, or 16 for any other
/// character.
pub open spec fn hex_val(c: char) -> int {
    if c == '0' {
        0
    } else if c == '1' {
        1
    } else if c == '2' {
        2
    } else if c == '3' {
        3
    } else if c == '4' {
        4
    } else if c == '5' {
        5
    } else if c == '6' {
        6
    } else if c == '7' {
        7
    } else if c == '8' {
        8
    } else if c == '9' {
        9
    } else if c == 'a' {
        10
    } else if c == 'b' {
        11
    } else if c == 'c' {
        12
    } else if c == 'd' {
        13
    } else if c == 'e' {
        14
    } else if c == 'f' {
        15
    } else {
        16
    }
}

/// Read one (possibly escaped) character of a JSON string literal body at
/// position `i`: the character it stands for and the position after it.
pub open spec fn step_char(s: Seq<char>, i: int) -> Option<(char, int)> {
    if i < 0 || i >= s.len() {
        None
    } else if s[i] == '\\' {
        if i + 1 >= s.len() {
            None
        } else {
            let m = s[i + 1];
            if m == '"' || m == '\\' {
                Some((m, i + 2))
            } else if m == 'n' {
                Some(('\n', i + 2))
            } else if m == 'r' {
                Some(('\r', i + 2))
            } else if m == 't' {
                Some(('\t', i + 2))
            } else if m == 'u' {
                if i + 6 > s.len() {
                    None
                } else if s[i + 2] == '0' && s[i + 3] == '0' && hex_val(s[i + 4]) < 16 && hex_val(
                    s[i + 5],
                ) < 16 {
                    Some((((16 * hex_val(s[i + 4]) + hex_val(s[i + 5])) as u32) as char, i + 6))
                } else {
                    None
                }
            } else {
                None
            }
        }
    } else {
        Some((s[i], i + 1))
    }
}

/// Parse the body of a JSON string literal from position `i` up to its
/// closing quote: the decoded characters and the position after the quote.
pub open spec fn parse_string_body(s: Seq<char>, i: int) -> Option<(Seq<char>, int)>
    decreases s.len() - i,
{
    if i < 0 || i >= s.len() {
        None
    } else if s[i] == '"' {
        Some((Seq::empty(), i + 1))
    } else {
        match step_char(s, i) {
            None => None,
            Some((c, j)) => if j <= i {
                None
            } else {
                match parse_string_body(s, j) {
                    None => None,
                    Some((t, k)) => Some((seq![c] + t, k)),
                }
            },
        }
    }
}

/// Parse a whole JSON string literal, opening quote included, from
/// position `i`.
pub open spec fn parse_quoted(s: Seq<char>, i: int) -> Option<(Seq<char>, int)> {
    if 0 <= i < s.len() && s[i] == '"' {
        parse_string_body(s, i + 1)
    } else {
        None
    }
}

/// The escaped text of a string can also be read off the front: the first
/// character's escape, then the rest.
proof fn lemma_escape_str_first(a: Seq<char>)
    requires
        a.len() > 0,
    ensures
        escape_str(a) == escaped_char(a[0]) + escape_str(a.drop_first()),
    decreases a.len(),
{
    if a.len() == 1 {
        assert(a.take(a.len() - 1) =~= Seq::<char>::empty());
        assert(a.drop_first() =~= Seq::<char>::empty());
        assert(escape_str(a) =~= escaped_char(a[0]) + escape_str(a.drop_first()));
    } else {
        let b = a.take(a.len() - 1);
        lemma_escape_str_first(b);
        assert(b.drop_first() =~= a.drop_first().take(a.drop_first().len() - 1));
        assert(a.drop_first().last() == a.last());
        assert(escape_str(a.drop_first()) == escape_str(a.drop_first().take(
            a.drop_first().len() - 1,
        )) + escaped_char(a.drop_first().last()));
        assert(escape_str(a) =~= escaped_char(a[0]) + escape_str(a.drop_first()));
    }
}

/// Reading one encoded character back: at a position where the input holds
/// `escaped_char(c)` followed by anything, the step decodes exactly `c` and
/// stops right after it, and the position does not look like a closing
/// quote.
proof fn lemma_step_char_round_trip(c: char, s: Seq<char>, i: int, tail: Seq<char>)
    requires
        0 <= i <= s.len(),
        s.subrange(i, s.len() as int) == escaped_char(c) + tail,
    ensures
        s[i] != '"',
        step_char(s, i) == Some((c, i + escaped_char(c).len())),
{
    let e = escaped_char(c);
    let r = s.subrange(i, s.len() as int);
    assert(r.len() == e.len() + tail.len());
    assert(forall|k: int| 0 <= k < e.len() ==> r[k] == e[k] && r[k] == s[i + k]);
    if c == '"' || c == '\\' || c == '\n' || c == '\r' || c == '\t' {
        assert(s[i] == e[0] && s[i + 1] == e[1]);
    } else if (c as u32) < 32 {
        assert(s[i] == e[0] && s[i + 1] == e[1] && s[i + 2] == e[2] && s[i + 3] == e[3] && s[i + 4]
            == e[4] && s[i + 5] == e[5]);
        let hi = (c as u32) / 16;
        let lo = (c as u32) % 16;
        assert(hex_val(hex_digit(hi as int)) == hi);
        assert(hex_val(hex_digit(lo as int)) == lo);
        assert(16 * (hi as int) + (lo as int) == c as u32);
        assert(((c as u32) as char) == c);
    } else {
        assert(s[i] == e[0]);
    }
}

/// Parsing back a string literal body: the encoder's escaped text for `a`,
/// a closing quote, and anything after decode to exactly `a`, with the
/// parse ending right after the quote.
proof fn lemma_parse_body_round_trip(a: Seq<char>, s: Seq<char>, i: int, rest: Seq<char>)
    requires
        0 <= i <= s.len(),
        s.subrange(i, s.len() as int) == escape_str(a) + seq!['"'] + rest,
    ensures
        parse_string_body(s, i) == Some((a, i + escape_str(a).len() + 1)),
    decreases a.len(),
{
    let r = s.subrange(i, s.len() as int);
    let w = escape_str(a) + seq!['"'] + rest;
    assert(r.len() == w.len() && w.len() == escape_str(a).len() + 1 + rest.len());
    if a.len() == 0 {
        assert(escape_str(a) =~= Seq::<char>::empty());
        assert(w[0] == '"');
        assert(r[0] == s[i]);
        assert(s[i] == '"');
        assert(a =~= Seq::<char>::empty());
    } else {
        lemma_escape_str_first(a);
        let c = a[0];
        let e = escaped_char(c);
        let tail = escape_str(a.drop_first()) + seq!['"'] + rest;
        assert(r =~= e + tail) by {
            assert(forall|k: int| 0 <= k < w.len() ==> r[k] == #[trigger] w[k]);
            assert(forall|k: int| 0 <= k < w.len() ==> w[k] == #[trigger] (e + tail)[k]);
        }
        lemma_step_char_round_trip(c, s, i, tail);
        let j = i + e.len();
        assert forall|k: int| 0 <= k < tail.len() implies #[trigger] s.subrange(
            j,
            s.len() as int,
        )[k] == tail[k] by {
            assert(s.subrange(j, s.len() as int)[k] == s[j + k]);
            assert(r[e.len() + k] == s[i + (e.len() + k)]);
            assert(r[e.len() + k] == (e + tail)[e.len() + k]);
        }
        assert(s.subrange(j, s.len() as int) =~= tail);
        lemma_parse_body_round_trip(a.drop_first(), s, j, rest);
        assert(escape_str(a).len() == e.len() + escape_str(a.drop_first()).len());
        assert(seq![c] + a.drop_first() =~= a);
        assert(e.len() >= 1);
    }
}

/// Round trip of the JSON string encoding: wherever the text holds the
/// encoder's literal for `a` — `quoted(a)` — followed by anything at all,
/// parsing from there yields exactly `a` and consumes exactly the literal.
/// Nothing about `a` is lost by escaping.
pub proof fn lemma_quoted_round_trip(a: Seq<char>, s: Seq<char>, i: int, rest: Seq<char>)
    requires
        0 <= i <= s.len(),
        s.subrange(i, s.len() as int) == quoted(a) + rest,
    ensures
        parse_quoted(s, i) == Some((a, i + quoted(a).len())),
{
    let r = s.subrange(i, s.len() as int);
    let q = quoted(a) + rest;
    assert(quoted(a).len() == escape_str(a).len() + 2);
    assert(r.len() == q.len() && q.len() == quoted(a).len() + rest.len());
    assert(q[0] == '"');
    assert(r[0] == s[i]);
    assert(s[i] == '"');
    let w = escape_str(a) + seq!['"'] + rest;
    assert forall|k: int| 0 <= k < w.len() implies #[trigger] s.subrange(
        i + 1,
        s.len() as int,
    )[k] == w[k] by {
        assert(s.subrange(i + 1, s.len() as int)[k] == s[i + 1 + k]);
        assert(r[1 + k] == s[i + (1 + k)]);
        assert(r[1 + k] == q[1 + k]);
        assert(q[1 + k] == (seq!['"'] + w)[1 + k]) by {
            assert(quoted(a) =~= seq!['"'] + (escape_str(a) + seq!['"']));
            assert(q =~= seq!['"'] + w);
        }
        assert((seq!['"'] + w)[1 + k] == w[k]);
    }
    assert(s.subrange(i + 1, s.len() as int) =~= w);
    lemma_parse_body_round_trip(a, s, i + 1, rest);
}

/// The position of the first comma at or after `i`.
pub open spec fn find_comma(s: Seq<char>, i: int) -> Option<int>
    decreases s.len() - i,
{
    if i < 0 || i >= s.len() {
        None
    } else if s[i] == ',' {
        Some(i)
    } else {
        find_comma(s, i + 1)
    }
}

/// Parse `"key":"value"` at position `i` for the given key: the decoded
/// value and the position after its closing quote.
pub open spec fn parse_key_value(s: Seq<char>, i: int, key: Seq<char>) -> Option<(Seq<char>, int)> {
    match parse_quoted(s, i) {
        Some((k, j)) => if k == key && 0 <= j < s.len() && s[j] == ':' {
            parse_quoted(s, j + 1)
        } else {
            None
        },
        None => None,
    }
}

/// What decoding one serialized log entry gives back: each string field,
/// the duration's text when the key is present, and the payload's own JSON
/// text.
pub struct DecodedEntry {
    /// The decoded `service_name` field.
    pub service_name: Seq<char>,
    /// The decoded `level` field.
    pub level: Seq<char>,
    /// The decoded `message` field.
    pub message: Seq<char>,
    /// The decoded `timestamp` field.
    pub timestamp: Seq<char>,
    /// The text of the `duration` field, absent when the key is absent.
    pub duration_text: Option<Seq<char>>,
    /// The text of the `payload` field.
    pub payload_text: Seq<char>,
}

/// Parse one serialized log entry: the object skeleton with its keys in
/// order, an optional `duration`, and the payload text running to the
/// closing brace.
pub open spec fn parse_entry(s: Seq<char>) -> Option<DecodedEntry> {
    if s.len() < 2 || s[0] != '{' || s.last() != '}' {
        None
    } else {
        match parse_key_value(s, 1, "service_name"@) {
            None => None,
            Some((sn, i1)) => if !(i1 < s.len() && s[i1] == ',') {
                None
            } else {
                match parse_key_value(s, i1 + 1, "level"@) {
                    None => None,
                    Some((lv, i2)) => if !(i2 < s.len() && s[i2] == ',') {
                        None
                    } else {
                        match parse_key_value(s, i2 + 1, "message"@) {
                            None => None,
                            Some((msg, i3)) => if !(i3 < s.len() && s[i3] == ',') {
                                None
                            } else {
                                match parse_key_value(s, i3 + 1, "timestamp"@) {
                                    None => None,
                                    Some((ts, i4)) => if !(i4 < s.len() && s[i4] == ',') {
                                        None
                                    } else {
                                        parse_entry_tail(s, i4 + 1, sn, lv, msg, ts)
                                    },
                                }
                            },
                        }
                    },
                }
            },
        }
    }
}

/// Parse what follows the fixed string fields: either the `duration` field
/// and then the payload, or the payload alone.
pub open spec fn parse_entry_tail(
    s: Seq<char>,
    i: int,
    sn: Seq<char>,
    lv: Seq<char>,
    msg: Seq<char>,
    ts: Seq<char>,
) -> Option<DecodedEntry> {
    match parse_quoted(s, i) {
        None => None,
        Some((key, j)) => if !(0 <= j < s.len() && s[j] == ':') {
            None
        } else if key == "duration"@ {
            match find_comma(s, j + 1) {
                None => None,
                Some(m) => {
                    let dtext = s.subrange(j + 1, m);
                    match parse_payload(s, m + 1) {
                        None => None,
                        Some(ptext) => Some(
                            DecodedEntry {
                                service_name: sn,
                                level: lv,
                                message: msg,
                                timestamp: ts,
                                duration_text: Some(dtext),
                                payload_text: ptext,
                            },
                        ),
                    }
                },
            }
        } else if key == "payload"@ && j + 1 <= s.len() - 1 {
            Some(
                DecodedEntry {
                    service_name: sn,
                    level: lv,
                    message: msg,
                    timestamp: ts,
                    duration_text: None,
                    payload_text: s.subrange(j + 1, s.len() - 1),
                },
            )
        } else {
            None
        },
    }
}

/// Parse the `"payload":` field at position `i`; its value runs to the
/// closing brace.
pub open spec fn parse_payload(s: Seq<char>, i: int) -> Option<Seq<char>> {
    match parse_quoted(s, i) {
        None => None,
        Some((key, j)) => if key == "payload"@ && 0 <= j < s.len() && s[j] == ':' && j + 1 <= s.len()
            - 1 {
            Some(s.subrange(j + 1, s.len() - 1))
        } else {
            None
        },
    }
}

/// Splitting a suffix equation: when the text from `i` on reads `x + y`,
/// the characters of `x` sit at `i`, and the text from `i + x.len()` on
/// reads `y`.
proof fn lemma_peel(x: Seq<char>, y: Seq<char>, s: Seq<char>, i: int)
    requires
        0 <= i <= s.len(),
        s.subrange(i, s.len() as int) == x + y,
    ensures
        i + x.len() <= s.len(),
        forall|k: int| 0 <= k < x.len() ==> s[i + k] == #[trigger] x[k],
        s.subrange(i + x.len(), s.len() as int) == y,
{
    let r = s.subrange(i, s.len() as int);
    assert(r.len() == x.len() + y.len());
    assert(i + x.len() <= s.len());
    assert forall|k: int| 0 <= k < x.len() implies s[i + k] == #[trigger] x[k] by {
        assert(r[k] == s[i + k]);
        assert(r[k] == (x + y)[k]);
    }
    assert forall|k: int| 0 <= k < y.len() implies #[trigger] s.subrange(
        i + x.len(),
        s.len() as int,
    )[k] == y[k] by {
        assert(s.subrange(i + x.len(), s.len() as int)[k] == s[i + x.len() + k]);
        assert(r[x.len() + k] == s[i + (x.len() + k)]);
        assert(r[x.len() + k] == (x + y)[x.len() + k]);
    }
    assert(s.subrange(i + x.len(), s.len() as int) =~= y);
}

/// No decimal rendering contains a comma.
proof fn lemma_int_text_no_comma(v: int)
    ensures
        forall|k: int| 0 <= k < int_text(v).len() ==> int_text(v)[k] != ',',
{
    lemma_dec_digits_no_comma(if v < 0 {
        (-v) as nat
    } else {
        v as nat
    });
}

/// No decimal digit string contains a comma.
proof fn lemma_dec_digits_no_comma(n: nat)
    ensures
        forall|k: int| 0 <= k < dec_digits(n).len() ==> dec_digits(n)[k] != ',',
    decreases n,
{
    if n >= 10 {
        lemma_dec_digits_no_comma(n / 10);
    }
    assert forall|k: int| 0 <= k < dec_digits(n).len() implies dec_digits(n)[k] != ',' by {
        if n < 10 {
            assert(dec_digits(n)[k] == digit_char(n as int));
        } else if k < dec_digits(n).len() - 1 {
            assert(dec_digits(n)[k] == dec_digits(n / 10)[k]);
        } else {
            assert(dec_digits(n)[k] == digit_char((n % 10) as int));
        }
    }
}

/// The first comma after a comma-free stretch is the one right behind it.
proof fn lemma_find_comma_after(w: Seq<char>, s: Seq<char>, i: int, rest: Seq<char>)
    requires
        0 <= i <= s.len(),
        s.subrange(i, s.len() as int) == w + (seq![','] + rest),
        forall|k: int| 0 <= k < w.len() ==> w[k] != ',',
    ensures
        find_comma(s, i) == Some(i + w.len()),
    decreases w.len(),
{
    lemma_peel(w, seq![','] + rest, s, i);
    if w.len() == 0 {
        assert(s[i] == (seq![','] + rest)[0]);
    } else {
        assert(s[i] == w[0]);
        assert(s.subrange(i, s.len() as int) =~= seq![w[0]] + (w.drop_first() + (seq![',']
            + rest)));
        lemma_peel(seq![w[0]], w.drop_first() + (seq![','] + rest), s, i);
        assert(s.subrange(i + 1, s.len() as int) == w.drop_first() + (seq![','] + rest));
        lemma_find_comma_after(w.drop_first(), s, i + 1, rest);
    }
}

/// One `"key":"value"` field followed by a comma: parsing it yields the
/// value, and the text goes on after the comma.
proof fn lemma_field_step(key: Seq<char>, val: Seq<char>, s: Seq<char>, i: int, rest: Seq<char>)
    requires
        0 <= i <= s.len(),
        s.subrange(i, s.len() as int) == quoted(key) + (seq![':'] + (quoted(val) + (seq![',']
            + rest))),
    ensures
        ({
            let jc = i + quoted(key).len() + 1 + quoted(val).len();
            &&& parse_key_value(s, i, key) == Some((val, jc))
            &&& 0 <= jc < s.len()
            &&& s[jc] == ','
            &&& s.subrange(jc + 1, s.len() as int) == rest
        }),
{
    lemma_quoted_round_trip(key, s, i, seq![':'] + (quoted(val) + (seq![','] + rest)));
    lemma_peel(quoted(key), seq![':'] + (quoted(val) + (seq![','] + rest)), s, i);
    let ka = i + quoted(key).len() as int;
    lemma_peel(seq![':'], quoted(val) + (seq![','] + rest), s, ka);
    assert(s[ka] == ':') by {
        assert(s[ka + 0] == seq![':'][0]);
    }
    lemma_quoted_round_trip(val, s, ka + 1, seq![','] + rest);
    lemma_peel(quoted(val), seq![','] + rest, s, ka + 1);
    let jc = ka + 1 + quoted(val).len() as int;
    lemma_peel(seq![','], rest, s, jc);
    assert(s[jc] == ',') by {
        assert(s[jc + 0] == seq![','][0]);
    }
}

/// The final `"payload":` field: parsing its key lands on the colon, and
/// the value text runs to the closing brace, which ends the input.
proof fn lemma_payload_step(s: Seq<char>, i: int, pt: Seq<char>)
    requires
        0 <= i <= s.len(),
        s.subrange(i, s.len() as int) == quoted("payload"@) + (seq![':'] + (pt + seq!['}'])),
    ensures
        ({
            let j = i + quoted("payload"@).len();
            &&& parse_quoted(s, i) == Some(("payload"@, j))
            &&& 0 <= j < s.len()
            &&& s[j] == ':'
            &&& j + 1 <= s.len() - 1
            &&& s.subrange(j + 1, s.len() - 1) == pt
            &&& s[s.len() - 1] == '}'
            &&& parse_payload(s, i) == Some(pt)
        }),
{
    lemma_quoted_round_trip("payload"@, s, i, seq![':'] + (pt + seq!['}']));
    lemma_peel(quoted("payload"@), seq![':'] + (pt + seq!['}']), s, i);
    let j = i + quoted("payload"@).len() as int;
    lemma_peel(seq![':'], pt + seq!['}'], s, j);
    assert(s[j] == ':') by {
        assert(s[j + 0] == seq![':'][0]);
    }
    lemma_peel(pt, seq!['}'], s, j + 1);
    assert(j + 1 + pt.len() == s.len() - 1);
    assert(s[s.len() - 1] == '}') by {
        assert(s.subrange(j + 1 + pt.len() as int, s.len() as int)[0] == seq!['}'][0]);
    }
    assert(s.subrange(j + 1, s.len() - 1) =~= pt) by {
        assert(forall|k: int|
            0 <= k < pt.len() ==> #[trigger] s.subrange(j + 1, s.len() - 1)[k] == s[j + 1 + k]);
    }
}

/// The `"duration":<number>,` stretch: its text ends at the first comma,
/// and the text goes on after it.
proof fn lemma_duration_step(s: Seq<char>, i: int, x: i64, rest: Seq<char>)
    requires
        0 <= i <= s.len(),
        s.subrange(i, s.len() as int) == quoted("duration"@) + (seq![':'] + (int_text(x as int) + (
        seq![','] + rest))),
    ensures
        ({
            let j = i + quoted("duration"@).len();
            let m = j + 1 + int_text(x as int).len() as int;
            &&& parse_quoted(s, i) == Some(("duration"@, j))
            &&& 0 <= j < s.len()
            &&& s[j] == ':'
            &&& find_comma(s, j + 1) == Some(m)
            &&& s.subrange(j + 1, m) == int_text(x as int)
            &&& s.subrange(m + 1, s.len() as int) == rest
        }),
{
    let dt = int_text(x as int);
    lemma_quoted_round_trip("duration"@, s, i, seq![':'] + (dt + (seq![','] + rest)));
    lemma_peel(quoted("duration"@), seq![':'] + (dt + (seq![','] + rest)), s, i);
    let j = i + quoted("duration"@).len() as int;
    lemma_peel(seq![':'], dt + (seq![','] + rest), s, j);
    assert(s[j] == ':') by {
        assert(s[j + 0] == seq![':'][0]);
    }
    lemma_int_text_no_comma(x as int);
    lemma_find_comma_after(dt, s, j + 1, rest);
    lemma_peel(dt, seq![','] + rest, s, j + 1);
    let m = j + 1 + dt.len() as int;
    assert(s.subrange(j + 1, m) =~= dt) by {
        assert(forall|k: int|
            0 <= k < dt.len() ==> #[trigger] s.subrange(j + 1, m)[k] == s[j + 1 + k]);
    }
    lemma_peel(seq![','], rest, s, m);
}

/// Round trip of a serialized log entry: parsing the JSON text of an
/// entry gives back exactly its service name, level, message and
/// timestamp; the `duration` field is present, with the duration's exact
/// text, precisely when a duration was supplied; and the payload's own
/// JSON text is recovered exactly.
#[verifier::rlimit(100)]
pub proof fn lemma_entry_round_trip(
    sn: Seq<char>,
    lv: Seq<char>,
    msg: Seq<char>,
    ts: Seq<char>,
    d: Option<i64>,
    p: JsonValue,
)
    ensures
        parse_entry(entry_json(sn, lv, msg, ts, d, p)) == Some(
            DecodedEntry {
                service_name: sn,
                level: lv,
                message: msg,
                timestamp: ts,
                duration_text: match d {
                    Some(x) => Some(int_text(x as int)),
                    None => None,
                },
                payload_text: json_text(p),
            },
        ),
{
    let s = entry_json(sn, lv, msg, ts, d, p);
    let colon = seq![':'];
    let com = seq![','];
    let pt = json_text(p);
    let t8 = quoted("payload"@) + (colon + (pt + seq!['}']));
    let inner = match d {
        Some(x) => quoted("duration"@) + (colon + (int_text(x as int) + (com + t8))),
        None => t8,
    };
    let t7 = quoted("timestamp"@) + (colon + (quoted(ts) + (com + inner)));
    let t6 = quoted("message"@) + (colon + (quoted(msg) + (com + t7)));
    let t5 = quoted("level"@) + (colon + (quoted(lv) + (com + t6)));
    let t0 = quoted("service_name"@) + (colon + (quoted(sn) + (com + t5)));
    assert(s == seq!['{'] + t0);
    assert(s.subrange(0, s.len() as int) =~= s);
    lemma_peel(seq!['{'], t0, s, 0);
    assert(s[0] == '{') by {
        assert(s[0int + 0] == seq!['{'][0]);
    }
    lemma_field_step("service_name"@, sn, s, 1, t5);
    let i1 = 1 + quoted("service_name"@).len() as int + 1 + quoted(sn).len() as int;
    lemma_field_step("level"@, lv, s, i1 + 1, t6);
    let i2 = i1 + 1 + quoted("level"@).len() as int + 1 + quoted(lv).len() as int;
    lemma_field_step("message"@, msg, s, i2 + 1, t7);
    let i3 = i2 + 1 + quoted("message"@).len() as int + 1 + quoted(msg).len() as int;
    lemma_field_step("timestamp"@, ts, s, i3 + 1, inner);
    let i4 = i3 + 1 + quoted("timestamp"@).len() as int + 1 + quoted(ts).len() as int;
    reveal_strlit("duration");
    reveal_strlit("payload");
    assert("payload"@.len() == 7 && "duration"@.len() == 8);
    match d {
        Some(x) => {
            lemma_duration_step(s, i4 + 1, x, t8);
            let j = i4 + 1 + quoted("duration"@).len() as int;
            let m = j + 1 + int_text(x as int).len() as int;
            lemma_payload_step(s, m + 1, pt);
            assert(parse_entry_tail(s, i4 + 1, sn, lv, msg, ts) == Some(
                DecodedEntry {
                    service_name: sn,
                    level: lv,
                    message: msg,
                    timestamp: ts,
                    duration_text: Some(int_text(x as int)),
                    payload_text: pt,
                },
            ));
        },
        None => {
            lemma_payload_step(s, i4 + 1, pt);
            assert(parse_entry_tail(s, i4 + 1, sn, lv, msg, ts) == Some(
                DecodedEntry {
                    service_name: sn,
                    level: lv,
                    message: msg,
                    timestamp: ts,
                    duration_text: None,
                    payload_text: pt,
                },
            ));
        },
    }
}

} // verus!
