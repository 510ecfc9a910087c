//! The wire-frame codec. Client frames are JSON text of the forms
//! `{"action":"new_message","payload":{"body":"<text>"}}` and
//! `{"action":"delete_message","payload":{"id":<int>}}`; anything else is
//! malformed and ignored by the dispatcher. Server frames are JSON text for
//! broadcast events and per-session errors. The grammar and the renderings
//! are defined here as spec functions, and the executable codec is proved
//! against them.

use crate::chat::{ChatMessage, DeleteMessageRequest, NewMessage, OutgoingMessage};
use crate::store::MAX_TIMESTAMP_MICROS;
use vstd::prelude::*;
use vstd::string::*;

verus! {

/// An inbound frame once parsed: one of the two chat actions.
#[derive(Debug, Clone, PartialEq)]
pub enum InboundAction {
    NewMessage(NewMessage),
    DeleteMessage(DeleteMessageRequest),
}

/// A parsed frame at the specification level, with unbounded integers.
pub enum SpecFrame {
    NewMessage { body: Seq<char> },
    Delete { id: int },
}

// ---------------------------------------------------------------------------
// The grammar, as spec functions.
// ---------------------------------------------------------------------------

/// JSON insignificant whitespace.
pub open spec fn is_ws_char(c: char) -> bool {
    c == ' ' || c == '\t' || c == '\n' || c == '\r'
}

/// The first position at or after `i` that does not hold whitespace.
pub open spec fn spec_skip_ws(s: Seq<char>, i: int) -> int
    decreases s.len() - i,
{
    if 0 <= i < s.len() && is_ws_char(s[i]) {
        spec_skip_ws(s, i + 1)
    } else {
        i
    }
}

/// What a backslash escape denotes, for the escapes the grammar accepts.
pub open spec fn spec_unescape(c: char) -> Option<char> {
    if c == '"' {
        Some('"')
    } else if c == '\\' {
        Some('\\')
    } else if c == '/' {
        Some('/')
    } else if c == 'b' {
        Some('\u{0008}')
    } else if c == 'f' {
        Some('\u{000C}')
    } else if c == 'n' {
        Some('\n')
    } else if c == 'r' {
        Some('\r')
    } else if c == 't' {
        Some('\t')
    } else {
        None
    }
}

/// The content of a JSON string from position `i` (just past the opening
/// quote) to its closing quote: the decoded characters and the position just
/// past the closing quote. Raw control characters are forbidden, as in JSON.
pub open spec fn spec_parse_string_body(s: Seq<char>, i: int) -> Option<(Seq<char>, int)>
    decreases s.len() - i,
{
    if !(0 <= i < s.len()) {
        None
    } else if s[i] == '"' {
        Some((Seq::empty(), i + 1))
    } else if s[i] == '\\' {
        if i + 1 < s.len() && spec_unescape(s[i + 1]) is Some {
            match spec_parse_string_body(s, i + 2) {
                None => None,
                Some((t, j)) => Some((seq![spec_unescape(s[i + 1])->Some_0] + t, j)),
            }
        } else {
            None
        }
    } else if (s[i] as u32) < 32 {
        None
    } else {
        match spec_parse_string_body(s, i + 1) {
            None => None,
            Some((t, j)) => Some((seq![s[i]] + t, j)),
        }
    }
}

/// A decimal digit.
pub open spec fn is_digit(c: char) -> bool {
    48 <= c as u32 <= 57
}

/// The value of a decimal digit.
pub open spec fn digit_val(c: char) -> int {
    c as u32 - 48
}

/// Folds decimal digits from position `i` onto `acc`, returning the value
/// and the position after the last digit.
pub open spec fn spec_parse_digits(s: Seq<char>, i: int, acc: int) -> (int, int)
    decreases s.len() - i,
{
    if 0 <= i < s.len() && is_digit(s[i]) {
        spec_parse_digits(s, i + 1, acc * 10 + digit_val(s[i]))
    } else {
        (acc, i)
    }
}

/// A JSON integer at position `i`: an optional minus sign and digits without
/// a leading zero, returning the value and the position after the digits.
pub open spec fn spec_parse_int(s: Seq<char>, i: int) -> Option<(int, int)> {
    let neg = 0 <= i < s.len() && s[i] == '-';
    let i0 = if neg {
        i + 1
    } else {
        i
    };
    if 0 <= i0 < s.len() && is_digit(s[i0]) {
        if s[i0] == '0' {
            Some((0, i0 + 1))
        } else {
            let (v, j) = spec_parse_digits(s, i0, 0);
            Some(
                (
                    if neg {
                        -v
                    } else {
                        v
                    },
                    j,
                ),
            )
        }
    } else {
        None
    }
}

/// Whether the literal occurs verbatim at position `i`.
pub open spec fn spec_match_at(s: Seq<char>, i: int, lit: Seq<char>) -> bool {
    0 <= i && i + lit.len() <= s.len() && s.subrange(i, i + lit.len()) == lit
}

/// A parsed payload object at the specification level: a message body or a
/// message id.
pub enum SpecPayload {
    Body(Seq<char>),
    Id(int),
}

/// The payload object: `{"body":<string>}` or `{"id":<int>}`, returning its
/// shape and the position just past the closing brace.
pub open spec fn spec_parse_payload(s: Seq<char>, i: int) -> Option<(SpecPayload, int)> {
    if !(0 <= i < s.len() && s[i] == '{') {
        None
    } else {
        let i1 = spec_skip_ws(s, i + 1);
        if spec_match_at(s, i1, "\"body\""@) {
            let i2 = spec_skip_ws(s, i1 + 6);
            if !(i2 < s.len() && s[i2] == ':') {
                None
            } else {
                let i3 = spec_skip_ws(s, i2 + 1);
                if !(i3 < s.len() && s[i3] == '"') {
                    None
                } else {
                    match spec_parse_string_body(s, i3 + 1) {
                        None => None,
                        Some((body, i4)) => {
                            let i5 = spec_skip_ws(s, i4);
                            if !(i5 < s.len() && s[i5] == '}') {
                                None
                            } else {
                                Some((SpecPayload::Body(body), i5 + 1))
                            }
                        },
                    }
                }
            }
        } else if spec_match_at(s, i1, "\"id\""@) {
            let i2 = spec_skip_ws(s, i1 + 4);
            if !(i2 < s.len() && s[i2] == ':') {
                None
            } else {
                let i3 = spec_skip_ws(s, i2 + 1);
                match spec_parse_int(s, i3) {
                    None => None,
                    Some((id, i4)) => {
                        let i5 = spec_skip_ws(s, i4);
                        if !(i5 < s.len() && s[i5] == '}') {
                            None
                        } else {
                            Some((SpecPayload::Id(id), i5 + 1))
                        }
                    },
                }
            }
        } else {
            None
        }
    }
}

/// An action name and a payload make a frame exactly when their shapes
/// agree.
pub open spec fn spec_combine(action: Seq<char>, payload: SpecPayload) -> Option<SpecFrame> {
    match payload {
        SpecPayload::Body(body) => if action == "new_message"@ {
            Some(SpecFrame::NewMessage { body })
        } else {
            None
        },
        SpecPayload::Id(id) => if action == "delete_message"@ {
            Some(SpecFrame::Delete { id })
        } else {
            None
        },
    }
}

/// The closing brace of the outer object, trailing whitespace, end of input.
pub open spec fn spec_frame_end(s: Seq<char>, i: int) -> bool {
    let i0 = spec_skip_ws(s, i);
    &&& i0 < s.len()
    &&& s[i0] == '}'
    &&& spec_skip_ws(s, i0 + 1) == s.len()
}

/// The frame with the `action` member first: `"action":<string>` , comma,
/// `"payload":<payload>`, close, end. `i` points just past the `"action"`
/// key.
pub open spec fn spec_parse_action_first(s: Seq<char>, i: int) -> Option<SpecFrame> {
    let i2 = spec_skip_ws(s, i);
    if !(i2 < s.len() && s[i2] == ':') {
        None
    } else {
        let i3 = spec_skip_ws(s, i2 + 1);
        if !(i3 < s.len() && s[i3] == '"') {
            None
        } else {
            match spec_parse_string_body(s, i3 + 1) {
                None => None,
                Some((action, i4)) => {
                    let i5 = spec_skip_ws(s, i4);
                    if !(i5 < s.len() && s[i5] == ',') {
                        None
                    } else {
                        let i6 = spec_skip_ws(s, i5 + 1);
                        if !spec_match_at(s, i6, "\"payload\""@) {
                            None
                        } else {
                            let i7 = spec_skip_ws(s, i6 + 9);
                            if !(i7 < s.len() && s[i7] == ':') {
                                None
                            } else {
                                let i8 = spec_skip_ws(s, i7 + 1);
                                match spec_parse_payload(s, i8) {
                                    None => None,
                                    Some((payload, i9)) => if spec_frame_end(s, i9) {
                                        spec_combine(action, payload)
                                    } else {
                                        None
                                    },
                                }
                            }
                        }
                    }
                },
            }
        }
    }
}

/// The frame with the `payload` member first. `i` points just past the
/// `"payload"` key.
pub open spec fn spec_parse_payload_first(s: Seq<char>, i: int) -> Option<SpecFrame> {
    let i2 = spec_skip_ws(s, i);
    if !(i2 < s.len() && s[i2] == ':') {
        None
    } else {
        let i3 = spec_skip_ws(s, i2 + 1);
        match spec_parse_payload(s, i3) {
            None => None,
            Some((payload, i4)) => {
                let i5 = spec_skip_ws(s, i4);
                if !(i5 < s.len() && s[i5] == ',') {
                    None
                } else {
                    let i6 = spec_skip_ws(s, i5 + 1);
                    if !spec_match_at(s, i6, "\"action\""@) {
                        None
                    } else {
                        let i7 = spec_skip_ws(s, i6 + 8);
                        if !(i7 < s.len() && s[i7] == ':') {
                            None
                        } else {
                            let i8 = spec_skip_ws(s, i7 + 1);
                            if !(i8 < s.len() && s[i8] == '"') {
                                None
                            } else {
                                match spec_parse_string_body(s, i8 + 1) {
                                    None => None,
                                    Some((action, i9)) => if spec_frame_end(s, i9) {
                                        spec_combine(action, payload)
                                    } else {
                                        None
                                    },
                                }
                            }
                        }
                    }
                }
            },
        }
    }
}

/// The whole inbound frame grammar: an object carrying exactly the `action`
/// and `payload` members, in either order, whose payload shape must agree
/// with the action.
pub open spec fn spec_parse_frame(s: Seq<char>) -> Option<SpecFrame> {
    let i0 = spec_skip_ws(s, 0);
    if !(i0 < s.len() && s[i0] == '{') {
        None
    } else {
        let i1 = spec_skip_ws(s, i0 + 1);
        if spec_match_at(s, i1, "\"action\""@) {
            spec_parse_action_first(s, i1 + 8)
        } else if spec_match_at(s, i1, "\"payload\""@) {
            spec_parse_payload_first(s, i1 + 9)
        } else {
            None
        }
    }
}

// ---------------------------------------------------------------------------
// The executable parser, proved equal to the grammar.
// ---------------------------------------------------------------------------

/// `spec_skip_ws` never runs past the end of the input.
proof fn lemma_skip_ws_bounds(s: Seq<char>, i: int)
    requires
        0 <= i <= s.len(),
    ensures
        i <= spec_skip_ws(s, i) <= s.len(),
    decreases s.len() - i,
{
    if 0 <= i < s.len() && is_ws_char(s[i]) {
        lemma_skip_ws_bounds(s, i + 1);
    }
}

fn is_ws_exec(c: char) -> (b: bool)
    ensures
        b == is_ws_char(c),
{
    c == ' ' || c == '\t' || c == '\n' || c == '\r'
}

fn skip_ws(s: &str, len: usize, i: usize) -> (r: usize)
    requires
        len == s@.len(),
        i <= len,
    ensures
        r == spec_skip_ws(s@, i as int),
        i <= r <= len,
    decreases len - i,
{
    if i < len && is_ws_exec(s.get_char(i)) {
        skip_ws(s, len, i + 1)
    } else {
        i
    }
}

fn unescape(c: char) -> (r: Option<char>)
    ensures
        r == spec_unescape(c),
{
    if c == '"' {
        Some('"')
    } else if c == '\\' {
        Some('\\')
    } else if c == '/' {
        Some('/')
    } else if c == 'b' {
        Some('\u{0008}')
    } else if c == 'f' {
        Some('\u{000C}')
    } else if c == 'n' {
        Some('\n')
    } else if c == 'r' {
        Some('\r')
    } else if c == 't' {
        Some('\t')
    } else {
        None
    }
}

fn parse_string_body(s: &str, len: usize, i: usize) -> (r: Option<(Vec<char>, usize)>)
    requires
        len == s@.len(),
        i <= len,
    ensures
        match spec_parse_string_body(s@, i as int) {
            None => r is None,
            Some((t, j)) => r matches Some(p) && p.0@ == t && p.1 == j && p.1 <= len,
        },
    decreases len - i,
{
    if i >= len {
        return None;
    }
    let c = s.get_char(i);
    if c == '"' {
        return Some((Vec::new(), i + 1));
    }
    if c == '\\' {
        if i + 1 < len {
            match unescape(s.get_char(i + 1)) {
                None => None,
                Some(u) => {
                    match parse_string_body(s, len, i + 2) {
                        None => None,
                        Some((mut t, j)) => {
                            let ghost t0 = t@;
                            t.insert(0, u);
                            proof {
                                assert(t@ =~= seq![u] + t0);
                            }
                            Some((t, j))
                        },
                    }
                },
            }
        } else {
            None
        }
    } else if (c as u32) < 32 {
        None
    } else {
        match parse_string_body(s, len, i + 1) {
            None => None,
            Some((mut t, j)) => {
                let ghost t0 = t@;
                t.insert(0, c);
                proof {
                    assert(t@ =~= seq![c] + t0);
                }
                Some((t, j))
            },
        }
    }
}

/// Folding further digits onto a non-negative accumulator never shrinks it,
/// and the end position stays inside the input.
proof fn lemma_digits_monotone(s: Seq<char>, i: int, acc: int)
    requires
        0 <= acc,
        i <= s.len(),
    ensures
        spec_parse_digits(s, i, acc).0 >= acc,
        i <= spec_parse_digits(s, i, acc).1 <= s.len(),
    decreases s.len() - i,
{
    if 0 <= i < s.len() && is_digit(s[i]) {
        lemma_digits_monotone(s, i + 1, acc * 10 + digit_val(s[i]));
    }
}

fn is_digit_exec(c: char) -> (b: bool)
    ensures
        b == is_digit(c),
{
    let v = c as u32;
    48 <= v && v <= 57
}

fn parse_digits(s: &str, len: usize, i: usize, acc: i64) -> (r: Option<(i64, usize)>)
    requires
        len == s@.len(),
        i <= len,
        0 <= acc <= 2_147_483_648,
    ensures
        ({
            let (v, j) = spec_parse_digits(s@, i as int, acc as int);
            match r {
                Some(p) => p.0 == v && 0 <= p.0 <= 2_147_483_648 && p.1 == j && p.1 <= len,
                None => v > 2_147_483_648,
            }
        }),
    decreases len - i,
{
    if i < len && is_digit_exec(s.get_char(i)) {
        let d = (s.get_char(i) as u32 - 48) as i64;
        let acc2 = acc * 10 + d;
        if acc2 > 2_147_483_648 {
            proof {
                lemma_digits_monotone(s@, i + 1, acc2 as int);
            }
            None
        } else {
            parse_digits(s, len, i + 1, acc2)
        }
    } else {
        Some((acc, i))
    }
}

fn parse_int(s: &str, len: usize, i: usize) -> (r: Option<(i32, usize)>)
    requires
        len == s@.len(),
        i <= len,
    ensures
        match spec_parse_int(s@, i as int) {
            None => r is None,
            Some((v, j)) => {
                if i32::MIN <= v <= i32::MAX {
                    r matches Some(p) && p.0 == v && p.1 == j && p.1 <= len
                } else {
                    r is None
                }
            },
        },
{
    let neg = i < len && s.get_char(i) == '-';
    let i0 = if neg {
        i + 1
    } else {
        i
    };
    if i0 < len && is_digit_exec(s.get_char(i0)) {
        if s.get_char(i0) == '0' {
            return Some((0, i0 + 1));
        }
        match parse_digits(s, len, i0, 0) {
            None => None,
            Some((v, j)) => {
                if neg {
                    if v == 2_147_483_648 {
                        Some((i32::MIN, j))
                    } else {
                        Some((-(v as i32), j))
                    }
                } else {
                    if v > 2_147_483_647 {
                        None
                    } else {
                        Some((v as i32, j))
                    }
                }
            },
        }
    } else {
        None
    }
}

fn match_lit(s: &str, len: usize, i: usize, lit: &str, lit_len: usize) -> (b: bool)
    requires
        len == s@.len(),
        lit_len == lit@.len(),
        i <= len,
    ensures
        b == spec_match_at(s@, i as int, lit@),
{
    if lit_len > len - i {
        return false;
    }
    let mut k: usize = 0;
    while k < lit_len
        invariant
            len == s@.len(),
            lit_len == lit@.len(),
            i <= len,
            lit_len <= len - i,
            0 <= k <= lit_len,
            forall|p: int| 0 <= p < k ==> s@[i + p] == lit@[p],
        decreases lit_len - k,
    {
        if s.get_char(i + k) != lit.get_char(k) {
            proof {
                assert(s@.subrange(i as int, i + lit_len)[k as int] == s@[i + k]);
            }
            return false;
        }
        k = k + 1;
    }
    proof {
        assert(s@.subrange(i as int, i + lit_len) =~= lit@);
    }
    true
}

fn vec_eq_str(v: &Vec<char>, s: &str, s_len: usize) -> (b: bool)
    requires
        s_len == s@.len(),
    ensures
        b == (v@ == s@),
{
    if v.len() != s_len {
        return false;
    }
    let mut k: usize = 0;
    while k < s_len
        invariant
            s_len == s@.len(),
            v@.len() == s_len,
            0 <= k <= s_len,
            forall|p: int| 0 <= p < k ==> v@[p] == s@[p],
        decreases s_len - k,
    {
        if v[k] != s.get_char(k) {
            return false;
        }
        k = k + 1;
    }
    proof {
        assert(v@ =~= s@);
    }
    true
}

/// Relies on `String: FromIterator<&char>`: collecting the characters of a
/// vector yields the string of exactly those characters in order.
#[verifier::external_body]
fn chars_to_string(v: &Vec<char>) -> (r: String)
    ensures
        r@ == v@,
{
    v.iter().collect()
}

/// A parsed payload object.
enum ParsedPayload {
    Body(String),
    Id(i32),
}

fn parse_payload(s: &str, len: usize, i: usize) -> (r: Option<(ParsedPayload, usize)>)
    requires
        len == s@.len(),
        i <= len,
    ensures
        match spec_parse_payload(s@, i as int) {
            None => r is None,
            Some((p, j)) => match p {
                SpecPayload::Body(b) => r matches Some(q) && (q.0 matches ParsedPayload::Body(m)
                    && m@ == b && q.1 == j && q.1 <= len),
                SpecPayload::Id(v) => {
                    if i32::MIN <= v <= i32::MAX {
                        r matches Some(q) && (q.0 matches ParsedPayload::Id(d) && d == v && q.1
                            == j && q.1 <= len)
                    } else {
                        r is None
                    }
                },
            },
        },
{
    proof {
        reveal_strlit("\"body\"");
        reveal_strlit("\"id\"");
    }
    if !(i < len && s.get_char(i) == '{') {
        return None;
    }
    let i1 = skip_ws(s, len, i + 1);
    if match_lit(s, len, i1, "\"body\"", 6) {
        let i2 = skip_ws(s, len, i1 + 6);
        if !(i2 < len && s.get_char(i2) == ':') {
            return None;
        }
        let i3 = skip_ws(s, len, i2 + 1);
        if !(i3 < len && s.get_char(i3) == '"') {
            return None;
        }
        match parse_string_body(s, len, i3 + 1) {
            None => None,
            Some((body, i4)) => {
                let i5 = skip_ws(s, len, i4);
                if !(i5 < len && s.get_char(i5) == '}') {
                    return None;
                }
                Some((ParsedPayload::Body(chars_to_string(&body)), i5 + 1))
            },
        }
    } else if match_lit(s, len, i1, "\"id\"", 4) {
        let i2 = skip_ws(s, len, i1 + 4);
        if !(i2 < len && s.get_char(i2) == ':') {
            return None;
        }
        let i3 = skip_ws(s, len, i2 + 1);
        match parse_int(s, len, i3) {
            None => None,
            Some((id, i4)) => {
                let i5 = skip_ws(s, len, i4);
                if !(i5 < len && s.get_char(i5) == '}') {
                    return None;
                }
                Some((ParsedPayload::Id(id), i5 + 1))
            },
        }
    } else {
        None
    }
}

/// Pairs an action name with a payload when their shapes agree.
fn combine(action: &Vec<char>, payload: ParsedPayload) -> (r: Option<InboundAction>)
    ensures
        ({
            let p = match payload {
                ParsedPayload::Body(m) => SpecPayload::Body(m@),
                ParsedPayload::Id(d) => SpecPayload::Id(d as int),
            };
            match spec_combine(action@, p) {
                None => r is None,
                Some(f) => match f {
                    SpecFrame::NewMessage { body } => r matches Some(a) && a matches
                        InboundAction::NewMessage(nm) && nm.message@ == body,
                    SpecFrame::Delete { id } => r matches Some(a) && a matches
                        InboundAction::DeleteMessage(d) && d.id == id,
                },
            }
        }),
{
    proof {
        reveal_strlit("new_message");
        reveal_strlit("delete_message");
    }
    match payload {
        ParsedPayload::Body(m) => {
            if vec_eq_str(action, "new_message", 11) {
                Some(InboundAction::NewMessage(NewMessage { message: m }))
            } else {
                None
            }
        },
        ParsedPayload::Id(d) => {
            if vec_eq_str(action, "delete_message", 14) {
                Some(InboundAction::DeleteMessage(DeleteMessageRequest { id: d }))
            } else {
                None
            }
        },
    }
}

/// How the parsed frame relates to the grammar's: equal, except that a
/// delete whose id does not fit a 32-bit integer is refused.
pub open spec fn parse_matches(r: Option<InboundAction>, f: Option<SpecFrame>) -> bool {
    match f {
        None => r is None,
        Some(SpecFrame::NewMessage { body }) => r matches Some(a) && a matches
            InboundAction::NewMessage(nm) && nm.message@ == body,
        Some(SpecFrame::Delete { id }) => {
            if i32::MIN <= id <= i32::MAX {
                r matches Some(a) && a matches InboundAction::DeleteMessage(d) && d.id == id
            } else {
                r is None
            }
        },
    }
}

fn parse_action_first(s: &str, len: usize, i: usize) -> (r: Option<InboundAction>)
    requires
        len == s@.len(),
        i <= len,
    ensures
        parse_matches(r, spec_parse_action_first(s@, i as int)),
{
    proof {
        reveal_strlit("\"payload\"");
    }
    let i2 = skip_ws(s, len, i);
    if !(i2 < len && s.get_char(i2) == ':') {
        return None;
    }
    let i3 = skip_ws(s, len, i2 + 1);
    if !(i3 < len && s.get_char(i3) == '"') {
        return None;
    }
    match parse_string_body(s, len, i3 + 1) {
        None => None,
        Some((action, i4)) => {
            let i5 = skip_ws(s, len, i4);
            if !(i5 < len && s.get_char(i5) == ',') {
                return None;
            }
            let i6 = skip_ws(s, len, i5 + 1);
            if !match_lit(s, len, i6, "\"payload\"", 9) {
                return None;
            }
            let i7 = skip_ws(s, len, i6 + 9);
            if !(i7 < len && s.get_char(i7) == ':') {
                return None;
            }
            let i8 = skip_ws(s, len, i7 + 1);
            match parse_payload(s, len, i8) {
                None => None,
                Some((payload, i9)) => {
                    if !frame_end(s, len, i9) {
                        return None;
                    }
                    combine(&action, payload)
                },
            }
        },
    }
}

fn parse_payload_first(s: &str, len: usize, i: usize) -> (r: Option<InboundAction>)
    requires
        len == s@.len(),
        i <= len,
    ensures
        parse_matches(r, spec_parse_payload_first(s@, i as int)),
{
    proof {
        reveal_strlit("\"action\"");
    }
    let i2 = skip_ws(s, len, i);
    if !(i2 < len && s.get_char(i2) == ':') {
        return None;
    }
    let i3 = skip_ws(s, len, i2 + 1);
    match parse_payload(s, len, i3) {
        None => None,
        Some((payload, i4)) => {
            let i5 = skip_ws(s, len, i4);
            if !(i5 < len && s.get_char(i5) == ',') {
                return None;
            }
            let i6 = skip_ws(s, len, i5 + 1);
            if !match_lit(s, len, i6, "\"action\"", 8) {
                return None;
            }
            let i7 = skip_ws(s, len, i6 + 8);
            if !(i7 < len && s.get_char(i7) == ':') {
                return None;
            }
            let i8 = skip_ws(s, len, i7 + 1);
            if !(i8 < len && s.get_char(i8) == '"') {
                return None;
            }
            match parse_string_body(s, len, i8 + 1) {
                None => None,
                Some((action, i9)) => {
                    if !frame_end(s, len, i9) {
                        return None;
                    }
                    combine(&action, payload)
                },
            }
        },
    }
}

fn frame_end(s: &str, len: usize, i: usize) -> (b: bool)
    requires
        len == s@.len(),
        i <= len,
    ensures
        b == spec_frame_end(s@, i as int),
{
    let i0 = skip_ws(s, len, i);
    if !(i0 < len && s.get_char(i0) == '}') {
        return false;
    }
    let i1 = skip_ws(s, len, i0 + 1);
    i1 == len
}

/// Parses one inbound frame. Returns the action exactly when the input is in
/// the frame grammar and, for a delete, the id fits a 32-bit integer; any
/// other input is malformed and yields nothing.
pub fn parse_frame(s: &str) -> (r: Option<InboundAction>)
    ensures
        parse_matches(r, spec_parse_frame(s@)),
{
    proof {
        reveal_strlit("\"action\"");
        reveal_strlit("\"payload\"");
    }
    let len = s.unicode_len();
    let i0 = skip_ws(s, len, 0);
    if !(i0 < len && s.get_char(i0) == '{') {
        return None;
    }
    let i1 = skip_ws(s, len, i0 + 1);
    if match_lit(s, len, i1, "\"action\"", 8) {
        parse_action_first(s, len, i1 + 8)
    } else if match_lit(s, len, i1, "\"payload\"", 9) {
        parse_payload_first(s, len, i1 + 9)
    } else {
        None
    }
}

// ---------------------------------------------------------------------------
// Server frames: renderings as spec functions, and the proved renderers.
// ---------------------------------------------------------------------------

/// The character for a decimal digit value.
pub open spec fn digit_char(d: int) -> char {
    if d == 0 {
        '0'
    } else if d == 1 {
        '1'
    } else if d == 2 {
        '2'
    } else if d == 3 {
        '3'
    } else if d == 4 {
        '4'
    } else if d == 5 {
        '5'
    } else if d == 6 {
        '6'
    } else if d == 7 {
        '7'
    } else if d == 8 {
        '8'
    } else {
        '9'
    }
}

/// The character for a hexadecimal digit value.
pub open spec fn hex_char(d: int) -> char {
    if d < 10 {
        digit_char(d)
    } else if d == 10 {
        'a'
    } else if d == 11 {
        'b'
    } else if d == 12 {
        'c'
    } else if d == 13 {
        'd'
    } else if d == 14 {
        'e'
    } else {
        'f'
    }
}

/// The decimal rendering of a non-negative integer, no leading zeros.
pub open spec fn spec_dec_nat(n: int) -> Seq<char>
    decreases n,
{
    if n < 10 {
        seq![digit_char(n)]
    } else {
        spec_dec_nat(n / 10) + seq![digit_char(n % 10)]
    }
}

/// How one character is written inside a JSON string: quote, backslash and
/// control characters are escaped, everything else stands as itself.
pub open spec fn spec_escape_char(c: char) -> Seq<char> {
    if c == '"' {
        seq!['\\', '"']
    } else if c == '\\' {
        seq!['\\', '\\']
    } else if c == '\u{0008}' {
        seq!['\\', 'b']
    } else if c == '\u{000C}' {
        seq!['\\', 'f']
    } else if c == '\n' {
        seq!['\\', 'n']
    } else if c == '\r' {
        seq!['\\', 'r']
    } else if c == '\t' {
        seq!['\\', 't']
    } else if (c as u32) < 32 {
        seq!['\\', 'u', '0', '0', hex_char(c as u32 as int / 16), hex_char(c as u32 as int % 16)]
    } else {
        seq![c]
    }
}

/// A text written inside a JSON string, character by character.
pub open spec fn spec_escape(s: Seq<char>) -> Seq<char>
    decreases s.len(),
{
    if s.len() == 0 {
        Seq::empty()
    } else {
        spec_escape(s.drop_last()) + spec_escape_char(s.last())
    }
}

/// The timestamp rendering of an epoch instant, as the time formatter of the
/// calendar library writes it.
pub uninterp spec fn rfc3339_of(t: int) -> Seq<char>;

/// The broadcast frame for a committed message.
pub open spec fn spec_render_new_message(m: ChatMessage) -> Seq<char> {
    "{\"action\":\"new_message\",\"id\":"@ + spec_dec_nat(m.id as int) + ",\"authorId\":\""@
        + spec_escape(m.email@) + "\",\"authorName\":\""@ + spec_escape(m.username@)
        + "\",\"body\":\""@ + spec_escape(m.message@) + "\",\"timestamp\":\""@ + spec_escape(
        rfc3339_of(m.time as int),
    ) + "\"}"@
}

/// The broadcast frame for a deletion.
pub open spec fn spec_render_delete(id: int) -> Seq<char> {
    "{\"action\":\"delete\",\"message_id\":"@ + spec_dec_nat(id) + "}"@
}

/// The broadcast frame for an event.
pub open spec fn spec_render_outgoing(e: OutgoingMessage) -> Seq<char> {
    match e {
        OutgoingMessage::NewMessage(m) => spec_render_new_message(m),
        OutgoingMessage::Delete { message_id } => spec_render_delete(message_id as int),
    }
}

/// The per-session error frame for a reason.
pub open spec fn spec_render_error(msg: Seq<char>) -> Seq<char> {
    "{\"status\":\"error\",\"message\":\""@ + spec_escape(msg) + "\"}"@
}

/// Relies on `chrono::DateTime::<Utc>::from_timestamp_micros` and
/// `to_rfc3339`: the rendering is a function of the instant alone, and every
/// instant the store can assign lies inside the calendar's range.
#[verifier::external_body]
fn format_rfc3339(micros: i64) -> (r: String)
    requires
        0 <= micros <= MAX_TIMESTAMP_MICROS,
    ensures
        r@ == rfc3339_of(micros as int),
{
    match chrono::DateTime::<chrono::Utc>::from_timestamp_micros(micros) {
        Some(dt) => dt.to_rfc3339(),
        None => String::new(),
    }
}

fn push_str_chars(out: &mut Vec<char>, s: &str)
    ensures
        final(out)@ == old(out)@ + s@,
{
    let len = s.unicode_len();
    let mut i: usize = 0;
    proof {
        assert(out@ =~= old(out)@ + s@.take(0));
    }
    while i < len
        invariant
            len == s@.len(),
            0 <= i <= len,
            out@ == old(out)@ + s@.take(i as int),
        decreases len - i,
    {
        let c = s.get_char(i);
        out.push(c);
        proof {
            assert(s@.take(i + 1) =~= s@.take(i as int).push(s@[i as int]));
            assert(out@ =~= old(out)@ + s@.take(i + 1));
        }
        i = i + 1;
    }
    proof {
        assert(s@.take(len as int) =~= s@);
    }
}

fn digit_char_exec(d: u32) -> (c: char)
    requires
        d < 10,
    ensures
        c == digit_char(d as int),
{
    if d == 0 {
        '0'
    } else if d == 1 {
        '1'
    } else if d == 2 {
        '2'
    } else if d == 3 {
        '3'
    } else if d == 4 {
        '4'
    } else if d == 5 {
        '5'
    } else if d == 6 {
        '6'
    } else if d == 7 {
        '7'
    } else if d == 8 {
        '8'
    } else {
        '9'
    }
}

fn hex_char_exec(d: u32) -> (c: char)
    requires
        d < 16,
    ensures
        c == hex_char(d as int),
{
    if d < 10 {
        digit_char_exec(d)
    } else if d == 10 {
        'a'
    } else if d == 11 {
        'b'
    } else if d == 12 {
        'c'
    } else if d == 13 {
        'd'
    } else if d == 14 {
        'e'
    } else {
        'f'
    }
}

fn dec_into(out: &mut Vec<char>, n0: i32)
    requires
        n0 >= 0,
    ensures
        final(out)@ == old(out)@ + spec_dec_nat(n0 as int),
{
    let mut rev: Vec<char> = Vec::new();
    let mut n: i32 = n0;
    while n >= 10
        invariant
            0 <= n,
            spec_dec_nat(n0 as int) == spec_dec_nat(n as int) + rev@.reverse(),
        decreases n,
    {
        let ghost rev0 = rev@;
        let d = (n % 10) as u32;
        rev.push(digit_char_exec(d));
        proof {
            assert(rev@.reverse() =~= seq![digit_char(d as int)] + rev0.reverse());
            assert(spec_dec_nat(n as int) == spec_dec_nat(n as int / 10) + seq![
                digit_char(n as int % 10),
            ]);
            assert(spec_dec_nat(n as int) + rev0.reverse() =~= spec_dec_nat(n as int / 10) + (seq![
                digit_char(n as int % 10),
            ] + rev0.reverse()));
        }
        n = n / 10;
    }
    out.push(digit_char_exec(n as u32));
    proof {
        assert(out@ =~= old(out)@ + spec_dec_nat(n as int));
    }
    let ghost base = out@;
    let m = rev.len();
    let mut j: usize = m;
    while j > 0
        invariant
            m == rev@.len(),
            0 <= j <= m,
            out@.len() == base.len() + (m - j),
            forall|k: int| 0 <= k < base.len() ==> #[trigger] out@[k] == base[k],
            forall|k: int|
                0 <= k < m - j ==> #[trigger] out@[base.len() + k] == rev@[m - 1 - k],
        decreases j,
    {
        j = j - 1;
        out.push(rev[j]);
    }
    proof {
        assert forall|k: int| 0 <= k < out@.len() implies out@[k] == (base + rev@.reverse())[k] by {
            if k >= base.len() {
                let p = k - base.len();
                assert(out@[base.len() + p] == rev@[m - 1 - p]);
            }
        }
        assert(out@ =~= base + rev@.reverse());
    }
}

fn escape_into(out: &mut Vec<char>, s: &str)
    ensures
        final(out)@ == old(out)@ + spec_escape(s@),
{
    let len = s.unicode_len();
    let mut i: usize = 0;
    proof {
        assert(spec_escape(s@.take(0)) =~= Seq::<char>::empty());
        assert(out@ =~= old(out)@ + spec_escape(s@.take(0)));
    }
    while i < len
        invariant
            len == s@.len(),
            0 <= i <= len,
            out@ == old(out)@ + spec_escape(s@.take(i as int)),
        decreases len - i,
    {
        let ghost pre = out@;
        let c = s.get_char(i);
        if c == '"' {
            out.push('\\');
            out.push('"');
        } else if c == '\\' {
            out.push('\\');
            out.push('\\');
        } else if c == '\u{0008}' {
            out.push('\\');
            out.push('b');
        } else if c == '\u{000C}' {
            out.push('\\');
            out.push('f');
        } else if c == '\n' {
            out.push('\\');
            out.push('n');
        } else if c == '\r' {
            out.push('\\');
            out.push('r');
        } else if c == '\t' {
            out.push('\\');
            out.push('t');
        } else if (c as u32) < 32 {
            out.push('\\');
            out.push('u');
            out.push('0');
            out.push('0');
            out.push(hex_char_exec(c as u32 / 16));
            out.push(hex_char_exec(c as u32 % 16));
        } else {
            out.push(c);
        }
        proof {
            assert(out@ =~= pre + spec_escape_char(s@[i as int]));
            assert(s@.take(i + 1).drop_last() =~= s@.take(i as int));
            assert(s@.take(i + 1).last() == s@[i as int]);
            assert(out@ =~= old(out)@ + spec_escape(s@.take(i + 1)));
        }
        i = i + 1;
    }
    proof {
        assert(s@.take(len as int) =~= s@);
    }
}

/// Renders the broadcast frame for a committed message.
pub fn render_new_message(m: &ChatMessage) -> (r: String)
    requires
        m.id >= 0,
        0 <= m.time <= MAX_TIMESTAMP_MICROS,
    ensures
        r@ == spec_render_new_message(*m),
{
    let mut out: Vec<char> = Vec::new();
    push_str_chars(&mut out, "{\"action\":\"new_message\",\"id\":");
    dec_into(&mut out, m.id);
    push_str_chars(&mut out, ",\"authorId\":\"");
    escape_into(&mut out, m.email.as_str());
    push_str_chars(&mut out, "\",\"authorName\":\"");
    escape_into(&mut out, m.username.as_str());
    push_str_chars(&mut out, "\",\"body\":\"");
    escape_into(&mut out, m.message.as_str());
    push_str_chars(&mut out, "\",\"timestamp\":\"");
    let ts = format_rfc3339(m.time);
    escape_into(&mut out, ts.as_str());
    push_str_chars(&mut out, "\"}");
    chars_to_string(&out)
}

/// Renders the broadcast frame for a deletion.
pub fn render_delete(id: i32) -> (r: String)
    requires
        id >= 0,
    ensures
        r@ == spec_render_delete(id as int),
{
    let mut out: Vec<char> = Vec::new();
    push_str_chars(&mut out, "{\"action\":\"delete\",\"message_id\":");
    dec_into(&mut out, id);
    push_str_chars(&mut out, "}");
    chars_to_string(&out)
}

/// Whether an event is well-formed enough to render: store-assigned fields
/// in their ranges.
pub open spec fn event_wf(e: OutgoingMessage) -> bool {
    match e {
        OutgoingMessage::NewMessage(m) => m.id >= 0 && 0 <= m.time <= MAX_TIMESTAMP_MICROS,
        OutgoingMessage::Delete { message_id } => message_id >= 0,
    }
}

/// Renders the broadcast frame for an event.
pub fn render_outgoing(e: &OutgoingMessage) -> (r: String)
    requires
        event_wf(*e),
    ensures
        r@ == spec_render_outgoing(*e),
{
    match e {
        OutgoingMessage::NewMessage(m) => render_new_message(m),
        OutgoingMessage::Delete { message_id } => render_delete(*message_id),
    }
}

/// One history entry: the fields of a committed message, as in the
/// broadcast frame but without the action tag.
pub open spec fn spec_render_history_item(m: ChatMessage) -> Seq<char> {
    "{\"id\":"@ + spec_dec_nat(m.id as int) + ",\"authorId\":\""@ + spec_escape(m.email@)
        + "\",\"authorName\":\""@ + spec_escape(m.username@) + "\",\"body\":\""@ + spec_escape(
        m.message@,
    ) + "\",\"timestamp\":\""@ + spec_escape(rfc3339_of(m.time as int)) + "\"}"@
}

/// The comma-separated history entries, in the given order.
pub open spec fn spec_render_history_items(rows: Seq<ChatMessage>) -> Seq<char>
    decreases rows.len(),
{
    if rows.len() == 0 {
        Seq::empty()
    } else if rows.len() == 1 {
        spec_render_history_item(rows[0])
    } else {
        spec_render_history_items(rows.drop_last()) + ","@ + spec_render_history_item(rows.last())
    }
}

/// The history response: a JSON array of the given messages in order.
pub open spec fn spec_render_history(rows: Seq<ChatMessage>) -> Seq<char> {
    "["@ + spec_render_history_items(rows) + "]"@
}

fn render_history_item_into(out: &mut Vec<char>, m: &ChatMessage)
    requires
        m.id >= 0,
        0 <= m.time <= MAX_TIMESTAMP_MICROS,
    ensures
        final(out)@ == old(out)@ + spec_render_history_item(*m),
{
    push_str_chars(out, "{\"id\":");
    dec_into(out, m.id);
    push_str_chars(out, ",\"authorId\":\"");
    escape_into(out, m.email.as_str());
    push_str_chars(out, "\",\"authorName\":\"");
    escape_into(out, m.username.as_str());
    push_str_chars(out, "\",\"body\":\"");
    escape_into(out, m.message.as_str());
    push_str_chars(out, "\",\"timestamp\":\"");
    let ts = format_rfc3339(m.time);
    escape_into(out, ts.as_str());
    push_str_chars(out, "\"}");
}

/// Renders the history response for messages whose store-assigned fields
/// are in range.
pub fn render_history(rows: &Vec<ChatMessage>) -> (r: String)
    requires
        forall|i: int|
            0 <= i < rows@.len() ==> {
                &&& (#[trigger] rows@[i]).id >= 0
                &&& 0 <= rows@[i].time <= MAX_TIMESTAMP_MICROS
            },
    ensures
        r@ == spec_render_history(rows@),
{
    let mut out: Vec<char> = Vec::new();
    push_str_chars(&mut out, "[");
    let n = rows.len();
    let mut i: usize = 0;
    proof {
        assert(spec_render_history_items(rows@.take(0)) =~= Seq::<char>::empty());
        assert(out@ =~= "["@ + spec_render_history_items(rows@.take(0)));
    }
    while i < n
        invariant
            n == rows@.len(),
            0 <= i <= n,
            out@ == "["@ + spec_render_history_items(rows@.take(i as int)),
            forall|k: int|
                0 <= k < rows@.len() ==> {
                    &&& (#[trigger] rows@[k]).id >= 0
                    &&& 0 <= rows@[k].time <= MAX_TIMESTAMP_MICROS
                },
        decreases n - i,
    {
        if i > 0 {
            push_str_chars(&mut out, ",");
        }
        render_history_item_into(&mut out, &rows[i]);
        proof {
            assert(rows@.take(i + 1).drop_last() =~= rows@.take(i as int));
            assert(rows@.take(i + 1).last() == rows@[i as int]);
            assert(out@ =~= "["@ + spec_render_history_items(rows@.take(i + 1)));
        }
        i = i + 1;
    }
    proof {
        assert(rows@.take(n as int) =~= rows@);
    }
    push_str_chars(&mut out, "]");
    chars_to_string(&out)
}

/// Renders the per-session error frame for a reason.
pub fn render_error(msg: &str) -> (r: String)
    ensures
        r@ == spec_render_error(msg@),
{
    let mut out: Vec<char> = Vec::new();
    push_str_chars(&mut out, "{\"status\":\"error\",\"message\":\"");
    escape_into(&mut out, msg);
    push_str_chars(&mut out, "\"}");
    chars_to_string(&out)
}

} // verus!
