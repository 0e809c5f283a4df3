//! The session wire format: JSON text frames.
//!
//! A latency session tentatively reads each inbound text frame as a JSON
//! document. The grammar here is the standard JSON value grammar over the
//! frame's bytes; an object's walk also records where the values of its
//! top-level `type` and `seq` members lie, which is all the sub-protocol
//! reads. Member keys and the ping tag are matched on their literal token
//! text (no escape decoding): a frame that spells them any other way is
//! simply not a ping and falls back to echo. Nesting is bounded by
//! [`DEPTH_LIMIT`] so an adversarial frame cannot grow the parser's state
//! without bound; a frame nested deeper is treated as unparsable.
//!
//! Every specification function below is the grammar itself; each executable
//! function is proved to return exactly what its specification says on every
//! input.
use vstd::prelude::*;

verus! {

/// How many levels of value nesting a frame may use.
pub const DEPTH_LIMIT: u32 = 128;

/// JSON insignificant whitespace: space, tab, line feed, carriage return.
pub open spec fn is_ws(c: u8) -> bool {
    c == 32 || c == 9 || c == 10 || c == 13
}

/// An ASCII decimal digit.
pub open spec fn is_digit(c: u8) -> bool {
    48 <= c <= 57
}

/// An ASCII hexadecimal digit.
pub open spec fn is_hex(c: u8) -> bool {
    is_digit(c) || (65 <= c <= 70) || (97 <= c <= 102)
}

/// The first position at or after `i` that does not hold whitespace.
pub open spec fn scan_ws(s: Seq<u8>, i: int) -> int
    decreases s.len() - i,
{
    if 0 <= i < s.len() && is_ws(s[i]) {
        scan_ws(s, i + 1)
    } else {
        i
    }
}

/// The first position at or after `i` that does not hold a digit.
pub open spec fn scan_digits(s: Seq<u8>, i: int) -> int
    decreases s.len() - i,
{
    if 0 <= i < s.len() && is_digit(s[i]) {
        scan_digits(s, i + 1)
    } else {
        i
    }
}

/// Scans a string body from `i` (just after the opening quote) to just after
/// the closing quote. Escapes are the standard ones; a `\u` escape must be
/// followed by four hex digits; unescaped control bytes are refused.
pub open spec fn scan_string_body(s: Seq<u8>, i: int) -> Option<int>
    decreases s.len() - i,
{
    if !(0 <= i < s.len()) {
        None
    } else if s[i] == '"' as u8 {
        Some(i + 1)
    } else if s[i] == '\\' as u8 {
        if i + 2 <= s.len() {
            let e = s[i + 1];
            if e == '"' as u8 || e == '\\' as u8 || e == '/' as u8 || e == 'b' as u8 || e
                == 'f' as u8 || e == 'n' as u8 || e == 'r' as u8 || e == 't' as u8 {
                scan_string_body(s, i + 2)
            } else if e == 'u' as u8 {
                if i + 6 <= s.len() && is_hex(s[i + 2]) && is_hex(s[i + 3]) && is_hex(s[i + 4])
                    && is_hex(s[i + 5]) {
                    scan_string_body(s, i + 6)
                } else {
                    None
                }
            } else {
                None
            }
        } else {
            None
        }
    } else if s[i] < 32 {
        None
    } else {
        scan_string_body(s, i + 1)
    }
}

/// Parses a string token starting at its opening quote; yields the position
/// just after the closing quote.
pub open spec fn spec_parse_string(s: Seq<u8>, i: int) -> Option<int> {
    if 0 <= i < s.len() && s[i] == '"' as u8 {
        scan_string_body(s, i + 1)
    } else {
        None
    }
}

/// Parses a number token: an optional minus, an integer part without a
/// superfluous leading zero, an optional fraction, an optional exponent.
pub open spec fn spec_parse_number(s: Seq<u8>, i: int) -> Option<int> {
    let j = if 0 <= i < s.len() && s[i] == '-' as u8 {
        i + 1
    } else {
        i
    };
    if !(0 <= j < s.len() && is_digit(s[j])) {
        None
    } else {
        let k = if s[j] == '0' as u8 {
            j + 1
        } else {
            scan_digits(s, j)
        };
        if k < s.len() && s[k] == '.' as u8 {
            if k + 2 <= s.len() && is_digit(s[k + 1]) {
                spec_number_exp(s, scan_digits(s, k + 1))
            } else {
                None
            }
        } else {
            spec_number_exp(s, k)
        }
    }
}

/// The optional exponent part of a number, starting at `k`; yields the
/// token's end.
pub open spec fn spec_number_exp(s: Seq<u8>, k: int) -> Option<int> {
    if k < s.len() && (s[k] == 'e' as u8 || s[k] == 'E' as u8) {
        let m = if k + 2 <= s.len() && (s[k + 1] == '+' as u8 || s[k + 1] == '-' as u8) {
            k + 2
        } else {
            k + 1
        };
        if m < s.len() && is_digit(s[m]) {
            Some(scan_digits(s, m))
        } else {
            None
        }
    } else {
        Some(k)
    }
}

/// The token text of the `type` key.
pub open spec fn token_type() -> Seq<u8> {
    seq!['"' as u8, 't' as u8, 'y' as u8, 'p' as u8, 'e' as u8, '"' as u8]
}

/// The token text of the `seq` key.
pub open spec fn token_seq() -> Seq<u8> {
    seq!['"' as u8, 's' as u8, 'e' as u8, 'q' as u8, '"' as u8]
}

/// The token text of the string value `ping`.
pub open spec fn token_ping() -> Seq<u8> {
    seq!['"' as u8, 'p' as u8, 'i' as u8, 'n' as u8, 'g' as u8, '"' as u8]
}

/// What an object walk yields: the position just after the closing brace,
/// and the spans of the values of the object's last `type` and last `seq`
/// members, when present.
pub open spec fn spec_parse_object(s: Seq<u8>, i: int, d: nat) -> Option<
    (int, Option<(int, int)>, Option<(int, int)>),
>
    decreases s.len() - i, 1int,
{
    if 0 <= i < s.len() && s[i] == '{' as u8 {
        spec_obj_open(s, i + 1, d, None, None)
    } else {
        None
    }
}

/// Just after the opening brace: whitespace, then either the closing brace
/// of an empty object or the first member.
pub open spec fn spec_obj_open(
    s: Seq<u8>,
    i: int,
    d: nat,
    ty: Option<(int, int)>,
    sq: Option<(int, int)>,
) -> Option<(int, Option<(int, int)>, Option<(int, int)>)>
    decreases s.len() - i, 4int,
{
    if !(0 <= i < s.len()) {
        None
    } else if is_ws(s[i]) {
        spec_obj_open(s, i + 1, d, ty, sq)
    } else if s[i] == '}' as u8 {
        Some((i + 1, ty, sq))
    } else {
        spec_obj_member(s, i, d, ty, sq)
    }
}

/// A required member: whitespace, then a key string.
pub open spec fn spec_obj_member(
    s: Seq<u8>,
    i: int,
    d: nat,
    ty: Option<(int, int)>,
    sq: Option<(int, int)>,
) -> Option<(int, Option<(int, int)>, Option<(int, int)>)>
    decreases s.len() - i, 3int,
{
    if !(0 <= i < s.len()) {
        None
    } else if is_ws(s[i]) {
        spec_obj_member(s, i + 1, d, ty, sq)
    } else if s[i] == '"' as u8 {
        match spec_parse_string(s, i) {
            Some(j) => if j <= i || j > s.len() {
                None
            } else {
                spec_member_colon(s, j, d, ty, sq, (i, j))
            },
            None => None,
        }
    } else {
        None
    }
}

/// Between a member's key and its colon.
pub open spec fn spec_member_colon(
    s: Seq<u8>,
    i: int,
    d: nat,
    ty: Option<(int, int)>,
    sq: Option<(int, int)>,
    key: (int, int),
) -> Option<(int, Option<(int, int)>, Option<(int, int)>)>
    decreases s.len() - i, 3int,
{
    if !(0 <= i < s.len()) {
        None
    } else if is_ws(s[i]) {
        spec_member_colon(s, i + 1, d, ty, sq, key)
    } else if s[i] == ':' as u8 {
        spec_member_value(s, i + 1, d, ty, sq, key)
    } else {
        None
    }
}

/// A member's value: whitespace, then one nested value; a `type` or `seq`
/// key records the value's span.
pub open spec fn spec_member_value(
    s: Seq<u8>,
    i: int,
    d: nat,
    ty: Option<(int, int)>,
    sq: Option<(int, int)>,
    key: (int, int),
) -> Option<(int, Option<(int, int)>, Option<(int, int)>)>
    decreases s.len() - i, 3int,
{
    if !(0 <= i < s.len()) {
        None
    } else if is_ws(s[i]) {
        spec_member_value(s, i + 1, d, ty, sq, key)
    } else if d == 0 {
        None
    } else {
        match spec_parse_value(s, i, (d - 1) as nat) {
            Some(e) => if e <= i || e > s.len() {
                None
            } else {
                let ty2 = if s.subrange(key.0, key.1) == token_type() {
                    Some((i, e))
                } else {
                    ty
                };
                let sq2 = if s.subrange(key.0, key.1) == token_seq() {
                    Some((i, e))
                } else {
                    sq
                };
                spec_member_after(s, e, d, ty2, sq2)
            },
            None => None,
        }
    }
}

/// After a member's value: a comma and the next member, or the closing
/// brace.
pub open spec fn spec_member_after(
    s: Seq<u8>,
    i: int,
    d: nat,
    ty: Option<(int, int)>,
    sq: Option<(int, int)>,
) -> Option<(int, Option<(int, int)>, Option<(int, int)>)>
    decreases s.len() - i, 3int,
{
    if !(0 <= i < s.len()) {
        None
    } else if is_ws(s[i]) {
        spec_member_after(s, i + 1, d, ty, sq)
    } else if s[i] == ',' as u8 {
        spec_obj_member(s, i + 1, d, ty, sq)
    } else if s[i] == '}' as u8 {
        Some((i + 1, ty, sq))
    } else {
        None
    }
}

/// An array value, starting at its opening bracket.
pub open spec fn spec_parse_array(s: Seq<u8>, i: int, d: nat) -> Option<int>
    decreases s.len() - i, 1int,
{
    if 0 <= i < s.len() && s[i] == '[' as u8 {
        spec_arr_open(s, i + 1, d)
    } else {
        None
    }
}

/// Just after the opening bracket: whitespace, then either the closing
/// bracket of an empty array or the first element.
pub open spec fn spec_arr_open(s: Seq<u8>, i: int, d: nat) -> Option<int>
    decreases s.len() - i, 4int,
{
    if !(0 <= i < s.len()) {
        None
    } else if is_ws(s[i]) {
        spec_arr_open(s, i + 1, d)
    } else if s[i] == ']' as u8 {
        Some(i + 1)
    } else {
        spec_arr_elem(s, i, d)
    }
}

/// A required element: whitespace, then one nested value.
pub open spec fn spec_arr_elem(s: Seq<u8>, i: int, d: nat) -> Option<int>
    decreases s.len() - i, 3int,
{
    if !(0 <= i < s.len()) {
        None
    } else if is_ws(s[i]) {
        spec_arr_elem(s, i + 1, d)
    } else if d == 0 {
        None
    } else {
        match spec_parse_value(s, i, (d - 1) as nat) {
            Some(e) => if e <= i || e > s.len() {
                None
            } else {
                spec_arr_after(s, e, d)
            },
            None => None,
        }
    }
}

/// After an element: a comma and the next element, or the closing bracket.
pub open spec fn spec_arr_after(s: Seq<u8>, i: int, d: nat) -> Option<int>
    decreases s.len() - i, 3int,
{
    if !(0 <= i < s.len()) {
        None
    } else if is_ws(s[i]) {
        spec_arr_after(s, i + 1, d)
    } else if s[i] == ',' as u8 {
        spec_arr_elem(s, i + 1, d)
    } else if s[i] == ']' as u8 {
        Some(i + 1)
    } else {
        None
    }
}

/// One JSON value starting exactly at `i` (no leading whitespace); yields
/// the position just after its last byte.
pub open spec fn spec_parse_value(s: Seq<u8>, i: int, d: nat) -> Option<int>
    decreases s.len() - i, 2int,
{
    if !(0 <= i < s.len()) {
        None
    } else if s[i] == '{' as u8 {
        match spec_parse_object(s, i, d) {
            Some(t) => Some(t.0),
            None => None,
        }
    } else if s[i] == '[' as u8 {
        spec_parse_array(s, i, d)
    } else if s[i] == '"' as u8 {
        spec_parse_string(s, i)
    } else if s[i] == 't' as u8 {
        if i + 4 <= s.len() && s[i + 1] == 'r' as u8 && s[i + 2] == 'u' as u8 && s[i + 3]
            == 'e' as u8 {
            Some(i + 4)
        } else {
            None
        }
    } else if s[i] == 'f' as u8 {
        if i + 5 <= s.len() && s[i + 1] == 'a' as u8 && s[i + 2] == 'l' as u8 && s[i + 3]
            == 's' as u8 && s[i + 4] == 'e' as u8 {
            Some(i + 5)
        } else {
            None
        }
    } else if s[i] == 'n' as u8 {
        if i + 4 <= s.len() && s[i + 1] == 'u' as u8 && s[i + 2] == 'l' as u8 && s[i + 3]
            == 'l' as u8 {
            Some(i + 4)
        } else {
            None
        }
    } else if s[i] == '-' as u8 || is_digit(s[i]) {
        spec_parse_number(s, i)
    } else {
        None
    }
}

/// The whole-frame scan the sub-protocol makes: leading whitespace, one
/// top-level object, trailing whitespace to the end. Yields the `type` and
/// `seq` value spans when the frame has that shape.
pub open spec fn ping_scan(s: Seq<u8>) -> Option<(Option<(int, int)>, Option<(int, int)>)> {
    match spec_parse_object(s, scan_ws(s, 0), DEPTH_LIMIT as nat) {
        Some(t) => if scan_ws(s, t.0) == s.len() {
            Some((t.1, t.2))
        } else {
            None
        },
        None => None,
    }
}

/// A frame is a ping exactly when it is one whole JSON object whose last
/// `type` member holds the string `ping` and which has a `seq` member.
pub open spec fn is_ping(s: Seq<u8>) -> bool {
    match ping_scan(s) {
        Some((ty, sq)) => {
            &&& ty matches Some(t) && s.subrange(t.0, t.1) == token_ping()
            &&& sq is Some
        },
        None => false,
    }
}

/// The token text of a ping frame's `seq` value.
pub open spec fn ping_seq_span(s: Seq<u8>) -> (int, int) {
    ping_scan(s).unwrap().1.unwrap()
}

/// A span pair as the specification sees it.
pub open spec fn span_view(o: Option<(usize, usize)>) -> Option<(int, int)> {
    match o {
        Some(p) => Some((p.0 as int, p.1 as int)),
        None => None,
    }
}

/// An object walk's result as the specification sees it.
pub open spec fn scan_view(
    r: Option<(usize, Option<(usize, usize)>, Option<(usize, usize)>)>,
) -> Option<(int, Option<(int, int)>, Option<(int, int)>)> {
    match r {
        Some(t) => Some((t.0 as int, span_view(t.1), span_view(t.2))),
        None => None,
    }
}

/// A position option as the specification sees it.
pub open spec fn pos_view(r: Option<usize>) -> Option<int> {
    match r {
        Some(e) => Some(e as int),
        None => None,
    }
}

fn ws_at(s: &[u8], i: usize) -> (r: bool)
    requires
        i < s@.len(),
    ensures
        r == is_ws(s@[i as int]),
{
    let c = s[i];
    c == 32 || c == 9 || c == 10 || c == 13
}

fn digits_end(s: &[u8], i: usize) -> (r: usize)
    requires
        i <= s@.len(),
    ensures
        r as int == scan_digits(s@, i as int),
        i <= r <= s@.len(),
{
    let mut cur = i;
    while cur < s.len() && 48 <= s[cur] && s[cur] <= 57
        invariant
            i <= cur <= s@.len(),
            scan_digits(s@, i as int) == scan_digits(s@, cur as int),
        decreases s@.len() - cur,
    {
        assert(scan_digits(s@, cur as int) == scan_digits(s@, cur + 1 as int));
        cur += 1;
    }
    assert(scan_digits(s@, cur as int) == cur as int);
    cur
}

/// The end of a string token that starts at `i`, as the grammar gives it.
fn string_end(s: &[u8], i: usize) -> (r: Option<usize>)
    requires
        i <= s@.len(),
    ensures
        pos_view(r) == spec_parse_string(s@, i as int),
        r matches Some(e) ==> i < e <= s@.len(),
{
    if i >= s.len() {
        return None;
    }
    if s[i] != '"' as u8 {
        return None;
    }
    let mut cur = i + 1;
    while cur < s.len()
        invariant
            i + 1 <= cur <= s@.len(),
            spec_parse_string(s@, i as int) == scan_string_body(s@, cur as int),
        decreases s@.len() - cur,
    {
        let c = s[cur];
        if c == '"' as u8 {
            assert(scan_string_body(s@, cur as int) == Some(cur + 1 as int));
            return Some(cur + 1);
        } else if c == '\\' as u8 {
            if s.len() - cur >= 2 {
                let e = s[cur + 1];
                if e == '"' as u8 || e == '\\' as u8 || e == '/' as u8 || e == 'b' as u8 || e
                    == 'f' as u8 || e == 'n' as u8 || e == 'r' as u8 || e == 't' as u8 {
                    assert(scan_string_body(s@, cur as int) == scan_string_body(
                        s@,
                        cur + 2 as int,
                    ));
                    cur += 2;
                } else if e == 'u' as u8 {
                    if s.len() - cur >= 6 && hex_at(s, cur + 2) && hex_at(s, cur + 3) && hex_at(
                        s,
                        cur + 4,
                    ) && hex_at(s, cur + 5) {
                        assert(scan_string_body(s@, cur as int) == scan_string_body(
                            s@,
                            cur + 6 as int,
                        ));
                        cur += 6;
                    } else {
                        return None;
                    }
                } else {
                    return None;
                }
            } else {
                return None;
            }
        } else if c < 32 {
            return None;
        } else {
            assert(scan_string_body(s@, cur as int) == scan_string_body(s@, cur + 1 as int));
            cur += 1;
        }
    }
    assert(scan_string_body(s@, cur as int) is None);
    None
}

fn hex_at(s: &[u8], i: usize) -> (r: bool)
    requires
        i < s@.len(),
    ensures
        r == is_hex(s@[i as int]),
{
    let c = s[i];
    (48 <= c && c <= 57) || (65 <= c && c <= 70) || (97 <= c && c <= 102)
}

/// The end of the optional exponent part, as the grammar gives it.
fn number_exp_end(s: &[u8], k: usize) -> (r: Option<usize>)
    requires
        k <= s@.len(),
    ensures
        pos_view(r) == spec_number_exp(s@, k as int),
        r matches Some(e) ==> k <= e <= s@.len(),
{
    if k < s.len() && (s[k] == 'e' as u8 || s[k] == 'E' as u8) {
        let m = if s.len() - k >= 2 && (s[k + 1] == '+' as u8 || s[k + 1] == '-' as u8) {
            k + 2
        } else {
            k + 1
        };
        if m < s.len() && 48 <= s[m] && s[m] <= 57 {
            assert(scan_digits(s@, m as int) == scan_digits(s@, m + 1 as int));
            Some(digits_end(s, m + 1))
        } else {
            None
        }
    } else {
        Some(k)
    }
}

/// The end of a number token that starts at `i`, as the grammar gives it.
fn number_end(s: &[u8], i: usize) -> (r: Option<usize>)
    requires
        i <= s@.len(),
    ensures
        pos_view(r) == spec_parse_number(s@, i as int),
        r matches Some(e) ==> i < e <= s@.len(),
{
    let j = if i < s.len() && s[i] == '-' as u8 {
        i + 1
    } else {
        i
    };
    if !(j < s.len() && 48 <= s[j] && s[j] <= 57) {
        return None;
    }
    let k = if s[j] == '0' as u8 {
        j + 1
    } else {
        assert(scan_digits(s@, j as int) == scan_digits(s@, j + 1 as int));
        digits_end(s, j + 1)
    };
    if k < s.len() && s[k] == '.' as u8 {
        if s.len() - k >= 2 && 48 <= s[k + 1] && s[k + 1] <= 57 {
            assert(scan_digits(s@, k + 1 as int) == scan_digits(s@, k + 2 as int));
            let f = digits_end(s, k + 2);
            number_exp_end(s, f)
        } else {
            None
        }
    } else {
        number_exp_end(s, k)
    }
}

fn token_type_bytes() -> (v: Vec<u8>)
    ensures
        v@ == token_type(),
{
    let mut v: Vec<u8> = Vec::new();
    v.push('"' as u8);
    v.push('t' as u8);
    v.push('y' as u8);
    v.push('p' as u8);
    v.push('e' as u8);
    v.push('"' as u8);
    assert(v@ =~= token_type());
    v
}

fn token_seq_bytes() -> (v: Vec<u8>)
    ensures
        v@ == token_seq(),
{
    let mut v: Vec<u8> = Vec::new();
    v.push('"' as u8);
    v.push('s' as u8);
    v.push('e' as u8);
    v.push('q' as u8);
    v.push('"' as u8);
    assert(v@ =~= token_seq());
    v
}

pub(crate) fn token_ping_bytes() -> (v: Vec<u8>)
    ensures
        v@ == token_ping(),
{
    let mut v: Vec<u8> = Vec::new();
    v.push('"' as u8);
    v.push('p' as u8);
    v.push('i' as u8);
    v.push('n' as u8);
    v.push('g' as u8);
    v.push('"' as u8);
    assert(v@ =~= token_ping());
    v
}

/// Walks one object, returning its end and the spans of the last `type` and
/// `seq` member values, exactly as the grammar gives them.
pub fn parse_object_ex(s: &[u8], i: usize, d: u32) -> (r: Option<
    (usize, Option<(usize, usize)>, Option<(usize, usize)>),
>)
    requires
        i <= s@.len(),
    ensures
        scan_view(r) == spec_parse_object(s@, i as int, d as nat),
        r matches Some(t) ==> i < t.0 <= s@.len() && (t.1 matches Some(p) ==> p.0 <= p.1
            <= s@.len()) && (t.2 matches Some(p) ==> p.0 <= p.1 <= s@.len()),
    decreases d, 0int,
{
    if i >= s.len() {
        return None;
    }
    if s[i] != '{' as u8 {
        return None;
    }
    let mut cur: usize = i + 1;
    let mut ty: Option<(usize, usize)> = None;
    let mut sq: Option<(usize, usize)> = None;
    while cur < s.len() && ws_at(s, cur)
        invariant
            i + 1 <= cur <= s@.len(),
            spec_obj_open(s@, cur as int, d as nat, None, None) == spec_obj_open(
                s@,
                i + 1 as int,
                d as nat,
                None,
                None,
            ),
        decreases s@.len() - cur,
    {
        assert(spec_obj_open(s@, cur as int, d as nat, None, None) == spec_obj_open(
            s@,
            cur + 1 as int,
            d as nat,
            None,
            None,
        ));
        cur += 1;
    }
    if cur >= s.len() {
        return None;
    }
    if s[cur] == '}' as u8 {
        return Some((cur + 1, None, None));
    }
    loop
        invariant
            i < cur <= s@.len(),
            s@.len() <= usize::MAX,
            spec_obj_member(s@, cur as int, d as nat, span_view(ty), span_view(sq))
                == spec_parse_object(s@, i as int, d as nat),
            ty matches Some(p) ==> p.0 <= p.1 <= s@.len(),
            sq matches Some(p) ==> p.0 <= p.1 <= s@.len(),
        decreases s@.len() - cur,
    {
        let ghost c0 = cur as int;
        while cur < s.len() && ws_at(s, cur)
            invariant
                i < cur <= s@.len(),
                c0 <= cur as int,
                spec_obj_member(s@, cur as int, d as nat, span_view(ty), span_view(sq))
                    == spec_parse_object(s@, i as int, d as nat),
            decreases s@.len() - cur,
        {
            assert(spec_obj_member(s@, cur as int, d as nat, span_view(ty), span_view(sq))
                == spec_obj_member(s@, cur + 1 as int, d as nat, span_view(ty), span_view(sq)));
            cur += 1;
        }
        if cur >= s.len() {
            return None;
        }
        if s[cur] != '"' as u8 {
            return None;
        }
        let kstart = cur;
        let jo = string_end(s, cur);
        if jo.is_none() {
            return None;
        }
        let kend = jo.unwrap();
        cur = kend;
        while cur < s.len() && ws_at(s, cur)
            invariant
                i < cur <= s@.len(),
                kend <= cur,
                spec_member_colon(
                    s@,
                    cur as int,
                    d as nat,
                    span_view(ty),
                    span_view(sq),
                    (kstart as int, kend as int),
                ) == spec_parse_object(s@, i as int, d as nat),
            decreases s@.len() - cur,
        {
            assert(spec_member_colon(
                s@,
                cur as int,
                d as nat,
                span_view(ty),
                span_view(sq),
                (kstart as int, kend as int),
            ) == spec_member_colon(
                s@,
                cur + 1 as int,
                d as nat,
                span_view(ty),
                span_view(sq),
                (kstart as int, kend as int),
            ));
            cur += 1;
        }
        if cur >= s.len() {
            return None;
        }
        if s[cur] != ':' as u8 {
            return None;
        }
        cur += 1;
        while cur < s.len() && ws_at(s, cur)
            invariant
                i < cur <= s@.len(),
                kend < cur,
                spec_member_value(
                    s@,
                    cur as int,
                    d as nat,
                    span_view(ty),
                    span_view(sq),
                    (kstart as int, kend as int),
                ) == spec_parse_object(s@, i as int, d as nat),
            decreases s@.len() - cur,
        {
            assert(spec_member_value(
                s@,
                cur as int,
                d as nat,
                span_view(ty),
                span_view(sq),
                (kstart as int, kend as int),
            ) == spec_member_value(
                s@,
                cur + 1 as int,
                d as nat,
                span_view(ty),
                span_view(sq),
                (kstart as int, kend as int),
            ));
            cur += 1;
        }
        if cur >= s.len() {
            return None;
        }
        if d == 0 {
            return None;
        }
        let vstart = cur;
        let eo = parse_value_ex(s, cur, d - 1);
        if eo.is_none() {
            return None;
        }
        let e = eo.unwrap();
        let key = &s[kstart..kend];
        if crate::bytes::bytes_eq(key, token_type_bytes().as_slice()) {
            ty = Some((vstart, e));
        }
        if crate::bytes::bytes_eq(key, token_seq_bytes().as_slice()) {
            sq = Some((vstart, e));
        }
        cur = e;
        while cur < s.len() && ws_at(s, cur)
            invariant
                i < cur <= s@.len(),
                vstart < cur,
                ty matches Some(p) ==> p.0 <= p.1 <= s@.len(),
                sq matches Some(p) ==> p.0 <= p.1 <= s@.len(),
                spec_member_after(s@, cur as int, d as nat, span_view(ty), span_view(sq))
                    == spec_parse_object(s@, i as int, d as nat),
            decreases s@.len() - cur,
        {
            assert(spec_member_after(s@, cur as int, d as nat, span_view(ty), span_view(sq))
                == spec_member_after(
                s@,
                cur + 1 as int,
                d as nat,
                span_view(ty),
                span_view(sq),
            ));
            cur += 1;
        }
        if cur >= s.len() {
            return None;
        }
        if s[cur] == ',' as u8 {
            cur += 1;
        } else if s[cur] == '}' as u8 {
            return Some((cur + 1, ty, sq));
        } else {
            return None;
        }
    }
}

/// Walks one array, returning its end exactly as the grammar gives it.
pub fn parse_array_ex(s: &[u8], i: usize, d: u32) -> (r: Option<usize>)
    requires
        i <= s@.len(),
    ensures
        pos_view(r) == spec_parse_array(s@, i as int, d as nat),
        r matches Some(e) ==> i < e <= s@.len(),
    decreases d, 0int,
{
    if i >= s.len() {
        return None;
    }
    if s[i] != '[' as u8 {
        return None;
    }
    let mut cur: usize = i + 1;
    while cur < s.len() && ws_at(s, cur)
        invariant
            i + 1 <= cur <= s@.len(),
            spec_arr_open(s@, cur as int, d as nat) == spec_arr_open(s@, i + 1 as int, d as nat),
        decreases s@.len() - cur,
    {
        assert(spec_arr_open(s@, cur as int, d as nat) == spec_arr_open(
            s@,
            cur + 1 as int,
            d as nat,
        ));
        cur += 1;
    }
    if cur >= s.len() {
        return None;
    }
    if s[cur] == ']' as u8 {
        return Some(cur + 1);
    }
    loop
        invariant
            i < cur <= s@.len(),
            spec_arr_elem(s@, cur as int, d as nat) == spec_parse_array(s@, i as int, d as nat),
        decreases s@.len() - cur,
    {
        let ghost c0 = cur as int;
        while cur < s.len() && ws_at(s, cur)
            invariant
                i < cur <= s@.len(),
                c0 <= cur as int,
                spec_arr_elem(s@, cur as int, d as nat) == spec_parse_array(
                    s@,
                    i as int,
                    d as nat,
                ),
            decreases s@.len() - cur,
        {
            assert(spec_arr_elem(s@, cur as int, d as nat) == spec_arr_elem(
                s@,
                cur + 1 as int,
                d as nat,
            ));
            cur += 1;
        }
        if cur >= s.len() {
            return None;
        }
        if d == 0 {
            return None;
        }
        let eo = parse_value_ex(s, cur, d - 1);
        if eo.is_none() {
            return None;
        }
        let e = eo.unwrap();
        cur = e;
        while cur < s.len() && ws_at(s, cur)
            invariant
                i < cur <= s@.len(),
                c0 < cur as int,
                spec_arr_after(s@, cur as int, d as nat) == spec_parse_array(
                    s@,
                    i as int,
                    d as nat,
                ),
            decreases s@.len() - cur,
        {
            assert(spec_arr_after(s@, cur as int, d as nat) == spec_arr_after(
                s@,
                cur + 1 as int,
                d as nat,
            ));
            cur += 1;
        }
        if cur >= s.len() {
            return None;
        }
        if s[cur] == ',' as u8 {
            cur += 1;
        } else if s[cur] == ']' as u8 {
            return Some(cur + 1);
        } else {
            return None;
        }
    }
}

/// Parses one value starting exactly at `i`, as the grammar gives it.
pub fn parse_value_ex(s: &[u8], i: usize, d: u32) -> (r: Option<usize>)
    requires
        i <= s@.len(),
    ensures
        pos_view(r) == spec_parse_value(s@, i as int, d as nat),
        r matches Some(e) ==> i < e <= s@.len(),
    decreases d, 1int,
{
    if i >= s.len() {
        return None;
    }
    let c = s[i];
    if c == '{' as u8 {
        match parse_object_ex(s, i, d) {
            Some(t) => Some(t.0),
            None => None,
        }
    } else if c == '[' as u8 {
        parse_array_ex(s, i, d)
    } else if c == '"' as u8 {
        string_end(s, i)
    } else if c == 't' as u8 {
        if s.len() - i >= 4 && s[i + 1] == 'r' as u8 && s[i + 2] == 'u' as u8 && s[i + 3]
            == 'e' as u8 {
            Some(i + 4)
        } else {
            None
        }
    } else if c == 'f' as u8 {
        if s.len() - i >= 5 && s[i + 1] == 'a' as u8 && s[i + 2] == 'l' as u8 && s[i + 3]
            == 's' as u8 && s[i + 4] == 'e' as u8 {
            Some(i + 5)
        } else {
            None
        }
    } else if c == 'n' as u8 {
        if s.len() - i >= 4 && s[i + 1] == 'u' as u8 && s[i + 2] == 'l' as u8 && s[i + 3]
            == 'l' as u8 {
            Some(i + 4)
        } else {
            None
        }
    } else if c == '-' as u8 || (48 <= c && c <= 57) {
        number_end(s, i)
    } else {
        None
    }
}

} // verus!
