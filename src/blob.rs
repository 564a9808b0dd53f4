//! The visible text of a plaintext payload: base64 of a JSON text whose
//! top level is an object with `title` and `body` string members.
//!
//! The decoded text must be valid UTF-8 and one JSON object, with JSON's
//! whitespace, strings (all escapes, `\u` surrogate pairs included; a lone
//! surrogate is refused), numbers, literals, arrays and nested objects. For
//! each of `title` and `body` the first member of that name whose value is a
//! string counts; all other members are skipped.
use vstd::prelude::*;
use vstd::utf8::{valid_utf8, decode_utf8, encode_scalar};
use vstd::utf8::{encode_utf8, encode_utf8_decode_utf8};
use vstd::string::StringSliceAdditionalSpecFns;
use crate::base64::{base64_decode, decode_base64};
use crate::error::Error;

verus! {

pub open spec fn is_ws(c: u8) -> bool {
    c == 32 || c == 9 || c == 10 || c == 13
}

/// The first position at or after `i` that holds no whitespace.
pub open spec fn skip_ws(b: Seq<u8>, i: int) -> int
    decreases b.len() - i,
{
    if 0 <= i < b.len() && is_ws(b[i]) {
        skip_ws(b, i + 1)
    } else {
        i
    }
}

/// The byte that an escape `\c` stands for.
pub open spec fn unescape(c: u8) -> Option<u8> {
    if c == 34 || c == 92 || c == 47 {
        Some(c)
    } else if c == 98 {
        Some(8u8)
    } else if c == 102 {
        Some(12u8)
    } else if c == 110 {
        Some(10u8)
    } else if c == 114 {
        Some(13u8)
    } else if c == 116 {
        Some(9u8)
    } else {
        None
    }
}

pub open spec fn hex_value(c: u8) -> Option<int> {
    if 48 <= c <= 57 {
        Some(c - 48)
    } else if 97 <= c <= 102 {
        Some(c - 87)
    } else if 65 <= c <= 70 {
        Some(c - 55)
    } else {
        None
    }
}

/// The value of the four hex digits at `i`.
pub open spec fn hex4(b: Seq<u8>, i: int) -> Option<int> {
    if 0 <= i && i + 4 <= b.len() {
        match (hex_value(b[i]), hex_value(b[i + 1]), hex_value(b[i + 2]), hex_value(b[i + 3])) {
            (Some(h0), Some(h1), Some(h2), Some(h3)) => Some(h0 * 4096 + h1 * 256 + h2 * 16 + h3),
            _ => None,
        }
    } else {
        None
    }
}

/// The scalar that a `\uXXXX` escape whose digits start at `i` stands for
/// (two escapes for a surrogate pair), and the position after it. A lone
/// surrogate stands for nothing.
pub open spec fn unicode_escape(b: Seq<u8>, i: int) -> Option<(u32, int)> {
    match hex4(b, i) {
        None => None,
        Some(u) => if 0xD800 <= u <= 0xDBFF {
            if i + 6 <= b.len() && b[i + 4] == 92 && b[i + 5] == 117 {
                match hex4(b, i + 6) {
                    Some(l) => if 0xDC00 <= l <= 0xDFFF {
                        Some(((0x10000 + (u - 0xD800) * 0x400 + (l - 0xDC00)) as u32, i + 10))
                    } else {
                        None
                    },
                    None => None,
                }
            } else {
                None
            }
        } else if 0xDC00 <= u <= 0xDFFF {
            None
        } else {
            Some((u as u32, i + 4))
        },
    }
}

/// The rest of a string literal from `i` (inside the quotes), with `acc`
/// read so far: its content and the position after the closing quote.
pub open spec fn string_from(b: Seq<u8>, i: int, acc: Seq<u8>) -> Option<(Seq<u8>, int)>
    decreases b.len() - i,
{
    if i < 0 || i >= b.len() {
        None
    } else if b[i] == 34 {
        Some((acc, i + 1))
    } else if b[i] == 92 {
        if i + 1 < b.len() && b[i + 1] == 117 {
            match unicode_escape(b, i + 2) {
                Some((c, j)) => if i < j {
                    string_from(b, j, acc + encode_scalar(c))
                } else {
                    None
                },
                None => None,
            }
        } else if i + 1 < b.len() {
            match unescape(b[i + 1]) {
                Some(e) => string_from(b, i + 2, acc.push(e)),
                None => None,
            }
        } else {
            None
        }
    } else if b[i] < 32 {
        None
    } else {
        string_from(b, i + 1, acc.push(b[i]))
    }
}

pub open spec fn literal_at(b: Seq<u8>, i: int, lit: Seq<u8>) -> bool {
    0 <= i && i + lit.len() <= b.len() && b.subrange(i, i + lit.len()) == lit
}

pub open spec fn null_lit() -> Seq<u8> {
    seq![110u8, 117u8, 108u8, 108u8]
}

pub open spec fn true_lit() -> Seq<u8> {
    seq![116u8, 114u8, 117u8, 101u8]
}

pub open spec fn false_lit() -> Seq<u8> {
    seq![102u8, 97u8, 108u8, 115u8, 101u8]
}

pub open spec fn title_key() -> Seq<u8> {
    seq![116u8, 105u8, 116u8, 108u8, 101u8]
}

pub open spec fn body_key() -> Seq<u8> {
    seq![98u8, 111u8, 100u8, 121u8]
}

pub open spec fn is_digit(c: u8) -> bool {
    48 <= c <= 57
}

/// The first position at or after `i` that holds no digit.
pub open spec fn digits_end(b: Seq<u8>, i: int) -> int
    decreases b.len() - i,
{
    if 0 <= i < b.len() && is_digit(b[i]) {
        digits_end(b, i + 1)
    } else {
        i
    }
}

/// The end of a JSON number at `i`: an optional minus, an integer part
/// without leading zeros, an optional fraction and an optional exponent.
pub open spec fn number_end(b: Seq<u8>, i: int) -> Option<int> {
    let j0 = if 0 <= i < b.len() && b[i] == 45 { i + 1 } else { i };
    if !(0 <= j0 < b.len() && is_digit(b[j0])) {
        None
    } else {
        let j1 = if b[j0] == 48 { j0 + 1 } else { digits_end(b, j0) };
        let j2 = if 0 <= j1 < b.len() && b[j1] == 46 {
            if j1 + 1 < b.len() && is_digit(b[j1 + 1]) {
                digits_end(b, j1 + 1)
            } else {
                -1
            }
        } else {
            j1
        };
        if j2 < 0 {
            None
        } else if 0 <= j2 < b.len() && (b[j2] == 101 || b[j2] == 69) {
            let k = if j2 + 1 < b.len() && (b[j2 + 1] == 43 || b[j2 + 1] == 45) {
                j2 + 2
            } else {
                j2 + 1
            };
            if 0 <= k < b.len() && is_digit(b[k]) {
                Some(digits_end(b, k))
            } else {
                None
            }
        } else {
            Some(j2)
        }
    }
}

/// The end of any JSON value at `i`.
pub open spec fn value_end(b: Seq<u8>, i: int) -> Option<int>
    decreases b.len() - i, 0int,
{
    if !(0 <= i < b.len()) {
        None
    } else if b[i] == 34 {
        match string_from(b, i + 1, Seq::empty()) {
            Some((_, j)) => Some(j),
            None => None,
        }
    } else if b[i] == 91 || b[i] == 123 {
        let close: u8 = if b[i] == 91 { 93 } else { 125 };
        let j = skip_ws(b, i + 1);
        if !(i < j <= b.len()) {
            None
        } else if j < b.len() && b[j] == close {
            Some(j + 1)
        } else if b[i] == 91 {
            elements_end(b, j)
        } else {
            fields_end(b, j)
        }
    } else if literal_at(b, i, null_lit()) || literal_at(b, i, true_lit()) {
        Some(i + 4)
    } else if literal_at(b, i, false_lit()) {
        Some(i + 5)
    } else {
        number_end(b, i)
    }
}

/// The end of the elements of an array from `i` (at an element) through
/// its closing bracket.
pub open spec fn elements_end(b: Seq<u8>, i: int) -> Option<int>
    decreases b.len() - i, 1int,
{
    if !(0 <= i < b.len()) {
        None
    } else {
        match value_end(b, i) {
            None => None,
            Some(e) => {
                let n = skip_ws(b, e);
                if 0 <= n < b.len() && b[n] == 93 {
                    Some(n + 1)
                } else if 0 <= n < b.len() && b[n] == 44 {
                    let next = skip_ws(b, n + 1);
                    if i < next <= b.len() {
                        elements_end(b, next)
                    } else {
                        None
                    }
                } else {
                    None
                }
            },
        }
    }
}

/// The end of the members of a nested object from `i` (at a key) through
/// its closing brace.
pub open spec fn fields_end(b: Seq<u8>, i: int) -> Option<int>
    decreases b.len() - i, 1int,
{
    if !(0 <= i < b.len() && b[i] == 34) {
        None
    } else {
        match string_from(b, i + 1, Seq::empty()) {
            None => None,
            Some((_, j)) => {
                let c = skip_ws(b, j);
                if !(0 <= c < b.len() && b[c] == 58) {
                    None
                } else {
                    let vs = skip_ws(b, c + 1);
                    if !(i < vs <= b.len()) {
                        None
                    } else {
                        match value_end(b, vs) {
                            None => None,
                            Some(e) => {
                                let n = skip_ws(b, e);
                                if 0 <= n < b.len() && b[n] == 125 {
                                    Some(n + 1)
                                } else if 0 <= n < b.len() && b[n] == 44 {
                                    let next = skip_ws(b, n + 1);
                                    if i < next <= b.len() {
                                        fields_end(b, next)
                                    } else {
                                        None
                                    }
                                } else {
                                    None
                                }
                            },
                        }
                    }
                }
            },
        }
    }
}

/// A member value at `i`: `Some(text)` for a string, `None` for any other
/// value, and the position after it.
pub open spec fn value_at(b: Seq<u8>, i: int) -> Option<(Option<Seq<u8>>, int)> {
    if 0 <= i < b.len() && b[i] == 34 {
        match string_from(b, i + 1, Seq::empty()) {
            Some((s, j)) => Some((Some(s), j)),
            None => None,
        }
    } else {
        match value_end(b, i) {
            Some(e) => Some((None, e)),
            None => None,
        }
    }
}

/// Keeps the first string seen under `key`.
pub open spec fn keep_first(
    cur: Option<Seq<u8>>,
    key: Seq<u8>,
    name: Seq<u8>,
    v: Option<Seq<u8>>,
) -> Option<Seq<u8>> {
    if cur.is_none() && key == name {
        v
    } else {
        cur
    }
}

/// The members from `i` (at the opening quote of a key) to the closing
/// brace: the title and body found, and the position after the brace.
pub open spec fn members_from(
    b: Seq<u8>,
    i: int,
    t: Option<Seq<u8>>,
    d: Option<Seq<u8>>,
) -> Option<(Option<Seq<u8>>, Option<Seq<u8>>, int)>
    decreases b.len() - i,
{
    if !(0 <= i < b.len() && b[i] == 34) {
        None
    } else {
        match string_from(b, i + 1, Seq::empty()) {
            None => None,
            Some((k, j)) => {
                let c = skip_ws(b, j);
                if !(0 <= c < b.len() && b[c] == 58) {
                    None
                } else {
                    match value_at(b, skip_ws(b, c + 1)) {
                        None => None,
                        Some((v, e)) => {
                            let t2 = keep_first(t, k, title_key(), v);
                            let d2 = keep_first(d, k, body_key(), v);
                            let n = skip_ws(b, e);
                            if 0 <= n < b.len() && b[n] == 125 {
                                Some((t2, d2, n + 1))
                            } else if 0 <= n < b.len() && b[n] == 44 {
                                let next = skip_ws(b, n + 1);
                                if i < next <= b.len() {
                                    members_from(b, next, t2, d2)
                                } else {
                                    None
                                }
                            } else {
                                None
                            }
                        },
                    }
                }
            },
        }
    }
}

/// The raw title and body bytes of a whole JSON text.
pub open spec fn object_fields(b: Seq<u8>) -> Option<(Seq<u8>, Seq<u8>)> {
    let o = skip_ws(b, 0);
    if !(0 <= o < b.len() && b[o] == 123) {
        None
    } else {
        let f = skip_ws(b, o + 1);
        let r = if 0 <= f < b.len() && b[f] == 125 {
            Some((None::<Seq<u8>>, None::<Seq<u8>>, f + 1))
        } else {
            members_from(b, f, None, None)
        };
        match r {
            Some((Some(t), Some(d), e)) => if skip_ws(b, e) == b.len() {
                Some((t, d))
            } else {
                None
            },
            _ => None,
        }
    }
}

/// The title and body that the encoded text `s` carries, if it is
/// well-formed.
pub open spec fn blob_text(s: Seq<u8>) -> Option<(Seq<char>, Seq<char>)> {
    match base64_decode(s) {
        None => None,
        Some(json) => if !valid_utf8(json) {
            None
        } else {
            match object_fields(json) {
            None => None,
                Some((t, d)) => if valid_utf8(t) && valid_utf8(d) {
                    Some((decode_utf8(t), decode_utf8(d)))
                } else {
                    None
                },
            }
        },
    }
}


pub open spec fn opt_view(o: Option<Vec<u8>>) -> Option<Seq<u8>> {
    match o {
        Some(v) => Some(v@),
        None => None,
    }
}

fn skip_whitespace(b: &[u8], i: usize) -> (r: usize)
    requires
        i <= b@.len(),
    ensures
        r as int == skip_ws(b@, i as int),
        i <= r <= b@.len(),
{
    let mut j: usize = i;
    while j < b.len() && (b[j] == 32 || b[j] == 9 || b[j] == 10 || b[j] == 13)
        invariant
            i <= j <= b@.len(),
            skip_ws(b@, i as int) == skip_ws(b@, j as int),
        decreases b@.len() - j,
    {
        j = j + 1;
    }
    j
}

fn unescape_byte(c: u8) -> (r: Option<u8>)
    ensures
        r == unescape(c),
{
    if c == 34 || c == 92 || c == 47 {
        Some(c)
    } else if c == 98 {
        Some(8)
    } else if c == 102 {
        Some(12)
    } else if c == 110 {
        Some(10)
    } else if c == 114 {
        Some(13)
    } else if c == 116 {
        Some(9)
    } else {
        None
    }
}

fn hex_byte(c: u8) -> (r: Option<u32>)
    ensures
        match hex_value(c) {
            Some(v) => r == Some(v as u32),
            None => r.is_none(),
        },
{
    if 48 <= c && c <= 57 {
        Some((c - 48) as u32)
    } else if 97 <= c && c <= 102 {
        Some((c - 87) as u32)
    } else if 65 <= c && c <= 70 {
        Some((c - 55) as u32)
    } else {
        None
    }
}

fn parse_hex4(b: &[u8], i: usize) -> (r: Option<u32>)
    ensures
        match hex4(b@, i as int) {
            Some(v) => r == Some(v as u32) && 0 <= v < 0x10000,
            None => r.is_none(),
        },
        r.is_some() ==> i + 4 <= b@.len(),
{
    if b.len() < 4 || i > b.len() - 4 {
        return None;
    }
    match (hex_byte(b[i]), hex_byte(b[i + 1]), hex_byte(b[i + 2]), hex_byte(b[i + 3])) {
        (Some(h0), Some(h1), Some(h2), Some(h3)) => Some(h0 * 4096 + h1 * 256 + h2 * 16 + h3),
        _ => None,
    }
}

fn parse_unicode_escape(b: &[u8], i: usize) -> (r: Option<(u32, usize)>)
    requires
        i <= b@.len(),
    ensures
        match unicode_escape(b@, i as int) {
            Some((c, j)) => r == Some((c, j as usize)) && j <= b@.len(),
            None => r.is_none(),
        },
{
    let h = parse_hex4(b, i);
    if h.is_none() {
        return None;
    }
    let u = h.unwrap();
    let n = b.len();
    assert(i + 4 <= n);
    if 0xD800 <= u && u <= 0xDBFF {
        if b.len() >= 6 && i <= b.len() - 6 && b[i + 4] == 92 && b[i + 5] == 117 {
            match parse_hex4(b, i + 6) {
                Some(l) => {
                    if 0xDC00 <= l && l <= 0xDFFF {
                        Some((0x10000 + (u - 0xD800) * 0x400 + (l - 0xDC00), i + 10))
                    } else {
                        None
                    }
                },
                None => None,
            }
        } else {
            None
        }
    } else if 0xDC00 <= u && u <= 0xDFFF {
        None
    } else {
        Some((u, i + 4))
    }
}

/// Appends the UTF-8 encoding of the scalar `s`.
fn push_scalar(s: u32, out: &mut Vec<u8>)
    requires
        s <= 0x10FFFF,
    ensures
        final(out)@ == old(out)@ + encode_scalar(s),
{
    if s <= 0x7F {
        out.push((s & 0x7F) as u8);
    } else if s <= 0x7FF {
        out.push(0xC0 | ((s >> 6) & 0x1F) as u8);
        out.push(0x80 | (s & 0x3F) as u8);
    } else if s <= 0xFFFF && !(0xD800 <= s && s <= 0xDFFF) {
        out.push(0xE0 | ((s >> 12) & 0x0F) as u8);
        out.push(0x80 | ((s >> 6) & 0x3F) as u8);
        out.push(0x80 | (s & 0x3F) as u8);
    } else {
        out.push(0xF0 | ((s >> 18) & 0x7) as u8);
        out.push(0x80 | ((s >> 12) & 0x3F) as u8);
        out.push(0x80 | ((s >> 6) & 0x3F) as u8);
        out.push(0x80 | (s & 0x3F) as u8);
    }
    assert(final(out)@ =~= old(out)@ + encode_scalar(s));
}

/// Reads a string literal whose content starts at `i`.
fn parse_string(b: &[u8], i: usize) -> (r: Option<(Vec<u8>, usize)>)
    requires
        i <= b@.len(),
    ensures
        match string_from(b@, i as int, Seq::empty()) {
            None => r.is_none(),
            Some((s, j)) => r.is_some() && r.unwrap().0@ == s && r.unwrap().1 as int == j,
        },
        r.is_some() ==> r.unwrap().1 <= b@.len(),
{
    let mut acc: Vec<u8> = Vec::new();
    let mut k: usize = i;
    while k < b.len()
        invariant
            i <= k <= b@.len(),
            string_from(b@, i as int, Seq::empty()) == string_from(b@, k as int, acc@),
        decreases b@.len() - k,
    {
        let c = b[k];
        if c == 34 {
            return Some((acc, k + 1));
        } else if c == 92 {
            if k + 1 < b.len() && b[k + 1] == 117 {
                match parse_unicode_escape(b, k + 2) {
                    Some((u, j)) => {
                        if k < j {
                            push_scalar(u, &mut acc);
                            k = j;
                        } else {
                            return None;
                        }
                    },
                    None => {
                        return None;
                    },
                }
            } else if k + 1 < b.len() {
                match unescape_byte(b[k + 1]) {
                    Some(e) => {
                        acc.push(e);
                        k = k + 2;
                    },
                    None => {
                        return None;
                    },
                }
            } else {
                return None;
            }
        } else if c < 32 {
            return None;
        } else {
            acc.push(c);
            k = k + 1;
        }
    }
    None
}

/// Whether the four bytes at `i` are `c0 c1 c2 c3`.
fn bytes_at4(b: &[u8], i: usize, c0: u8, c1: u8, c2: u8, c3: u8) -> (r: bool)
    requires
        i <= b@.len(),
    ensures
        r == literal_at(b@, i as int, seq![c0, c1, c2, c3]),
{
    let r = b.len() - i >= 4 && b[i] == c0 && b[i + 1] == c1 && b[i + 2] == c2 && b[i + 3]
        == c3;
    proof {
        let lit = seq![c0, c1, c2, c3];
        if i + 4 <= b@.len() {
            let sub = b@.subrange(i as int, i + 4);
            if r {
                assert(sub =~= lit);
            }
            if sub == lit {
                assert(sub[0] == lit[0] && sub[1] == lit[1] && sub[2] == lit[2] && sub[3]
                    == lit[3]);
            }
        }
    }
    r
}

/// Whether the five bytes at `i` are `c0 c1 c2 c3 c4`.
fn bytes_at5(b: &[u8], i: usize, c0: u8, c1: u8, c2: u8, c3: u8, c4: u8) -> (r: bool)
    requires
        i <= b@.len(),
    ensures
        r == literal_at(b@, i as int, seq![c0, c1, c2, c3, c4]),
{
    let r = b.len() - i >= 5 && b[i] == c0 && b[i + 1] == c1 && b[i + 2] == c2 && b[i + 3]
        == c3 && b[i + 4] == c4;
    proof {
        let lit = seq![c0, c1, c2, c3, c4];
        if i + 5 <= b@.len() {
            let sub = b@.subrange(i as int, i + 5);
            if r {
                assert(sub =~= lit);
            }
            if sub == lit {
                assert(sub[0] == lit[0] && sub[1] == lit[1] && sub[2] == lit[2] && sub[3]
                    == lit[3] && sub[4] == lit[4]);
            }
        }
    }
    r
}

fn is_title_key(k: &Vec<u8>) -> (r: bool)
    ensures
        r == (k@ == title_key()),
{
    let r = k.len() == 5 && k[0] == 116 && k[1] == 105 && k[2] == 116 && k[3] == 108 && k[4]
        == 101;
    proof {
        if r {
            assert(k@ =~= title_key());
        }
        if k@ == title_key() {
            assert(k@[0] == 116 && k@[1] == 105 && k@[2] == 116 && k@[3] == 108 && k@[4]
                == 101);
        }
    }
    r
}

fn is_body_key(k: &Vec<u8>) -> (r: bool)
    ensures
        r == (k@ == body_key()),
{
    let r = k.len() == 4 && k[0] == 98 && k[1] == 111 && k[2] == 100 && k[3] == 121;
    proof {
        if r {
            assert(k@ =~= body_key());
        }
        if k@ == body_key() {
            assert(k@[0] == 98 && k@[1] == 111 && k@[2] == 100 && k@[3] == 121);
        }
    }
    r
}

fn skip_digits(b: &[u8], i: usize) -> (r: usize)
    requires
        i <= b@.len(),
    ensures
        r as int == digits_end(b@, i as int),
        i <= r <= b@.len(),
{
    let mut j: usize = i;
    while j < b.len() && 48 <= b[j] && b[j] <= 57
        invariant
            i <= j <= b@.len(),
            digits_end(b@, i as int) == digits_end(b@, j as int),
        decreases b@.len() - j,
    {
        j = j + 1;
    }
    j
}

fn skip_number(b: &[u8], i: usize) -> (r: Option<usize>)
    requires
        i <= b@.len(),
    ensures
        match number_end(b@, i as int) {
            Some(e) => r.is_some() && r.unwrap() as int == e,
            None => r.is_none(),
        },
        r.is_some() ==> r.unwrap() <= b@.len(),
{
    let n = b.len();
    let j0 = if i < n && b[i] == 45 { i + 1 } else { i };
    if !(j0 < n && 48 <= b[j0] && b[j0] <= 57) {
        return None;
    }
    let j1 = if b[j0] == 48 { j0 + 1 } else { skip_digits(b, j0) };
    let j2 = if j1 < n && b[j1] == 46 {
        if j1 + 1 < n && 48 <= b[j1 + 1] && b[j1 + 1] <= 57 {
            skip_digits(b, j1 + 1)
        } else {
            return None;
        }
    } else {
        j1
    };
    if j2 < n && (b[j2] == 101 || b[j2] == 69) {
        let k = if j2 + 1 < n && (b[j2 + 1] == 43 || b[j2 + 1] == 45) { j2 + 2 } else { j2 + 1 };
        if k < n && 48 <= b[k] && b[k] <= 57 {
            Some(skip_digits(b, k))
        } else {
            None
        }
    } else {
        Some(j2)
    }
}

fn skip_value(b: &[u8], i: usize) -> (r: Option<usize>)
    requires
        i <= b@.len(),
    ensures
        match value_end(b@, i as int) {
            Some(e) => r.is_some() && r.unwrap() as int == e,
            None => r.is_none(),
        },
        r.is_some() ==> r.unwrap() <= b@.len(),
    decreases b@.len() - i, 0int,
{
    let n = b.len();
    if i >= n {
        return None;
    }
    if b[i] == 34 {
        match parse_string(b, i + 1) {
            Some((_, j)) => Some(j),
            None => None,
        }
    } else if b[i] == 91 || b[i] == 123 {
        let close: u8 = if b[i] == 91 { 93 } else { 125 };
        let j = skip_whitespace(b, i + 1);
        if j < n && b[j] == close {
            Some(j + 1)
        } else if b[i] == 91 {
            skip_elements(b, j)
        } else {
            skip_fields(b, j)
        }
    } else if bytes_at4(b, i, 110, 117, 108, 108) || bytes_at4(b, i, 116, 114, 117, 101) {
        Some(i + 4)
    } else if bytes_at5(b, i, 102, 97, 108, 115, 101) {
        Some(i + 5)
    } else {
        skip_number(b, i)
    }
}

fn skip_elements(b: &[u8], i: usize) -> (r: Option<usize>)
    requires
        i <= b@.len(),
    ensures
        match elements_end(b@, i as int) {
            Some(e) => r.is_some() && r.unwrap() as int == e,
            None => r.is_none(),
        },
        r.is_some() ==> r.unwrap() <= b@.len(),
    decreases b@.len() - i, 1int,
{
    let n = b.len();
    if i >= n {
        return None;
    }
    let e = match skip_value(b, i) {
        None => {
            return None;
        },
        Some(e) => e,
    };
    let k = skip_whitespace(b, e);
    if k < n && b[k] == 93 {
        Some(k + 1)
    } else if k < n && b[k] == 44 {
        let next = skip_whitespace(b, k + 1);
        if i < next {
            skip_elements(b, next)
        } else {
            None
        }
    } else {
        None
    }
}

fn skip_fields(b: &[u8], i: usize) -> (r: Option<usize>)
    requires
        i <= b@.len(),
    ensures
        match fields_end(b@, i as int) {
            Some(e) => r.is_some() && r.unwrap() as int == e,
            None => r.is_none(),
        },
        r.is_some() ==> r.unwrap() <= b@.len(),
    decreases b@.len() - i, 1int,
{
    let n = b.len();
    if !(i < n && b[i] == 34) {
        return None;
    }
    let j = match parse_string(b, i + 1) {
        None => {
            return None;
        },
        Some((_, j)) => j,
    };
    let c = skip_whitespace(b, j);
    if !(c < n && b[c] == 58) {
        return None;
    }
    let vs = skip_whitespace(b, c + 1);
    if !(i < vs) {
        return None;
    }
    let e = match skip_value(b, vs) {
        None => {
            return None;
        },
        Some(e) => e,
    };
    let k = skip_whitespace(b, e);
    if k < n && b[k] == 125 {
        Some(k + 1)
    } else if k < n && b[k] == 44 {
        let next = skip_whitespace(b, k + 1);
        if i < next {
            skip_fields(b, next)
        } else {
            None
        }
    } else {
        None
    }
}

fn parse_value(b: &[u8], i: usize) -> (r: Option<(Option<Vec<u8>>, usize)>)
    requires
        i <= b@.len(),
    ensures
        match value_at(b@, i as int) {
            None => r.is_none(),
            Some((v, j)) => r.is_some() && opt_view(r.unwrap().0) == v && r.unwrap().1 as int
                == j,
        },
        r.is_some() ==> r.unwrap().1 <= b@.len(),
{
    if i < b.len() && b[i] == 34 {
        match parse_string(b, i + 1) {
            Some((s, j)) => Some((Some(s), j)),
            None => None,
        }
    } else {
        match skip_value(b, i) {
            Some(e) => Some((None, e)),
            None => None,
        }
    }
}

fn parse_members(b: &[u8], i: usize, t: Option<Vec<u8>>, d: Option<Vec<u8>>) -> (r: Option<
    (Option<Vec<u8>>, Option<Vec<u8>>, usize),
>)
    requires
        i <= b@.len(),
    ensures
        match members_from(b@, i as int, opt_view(t), opt_view(d)) {
            None => r.is_none(),
            Some((t2, d2, e)) => r.is_some() && opt_view(r.unwrap().0) == t2 && opt_view(
                r.unwrap().1,
            ) == d2 && r.unwrap().2 as int == e,
        },
        r.is_some() ==> r.unwrap().2 <= b@.len(),
    decreases b@.len() - i,
{
    if !(i < b.len() && b[i] == 34) {
        return None;
    }
    let (k, j) = match parse_string(b, i + 1) {
        None => {
            return None;
        },
        Some(p) => p,
    };
    let c = skip_whitespace(b, j);
    if !(c < b.len() && b[c] == 58) {
        return None;
    }
    let vs = skip_whitespace(b, c + 1);
    let (v, e) = match parse_value(b, vs) {
        None => {
            return None;
        },
        Some(p) => p,
    };
    let ghost gt = keep_first(opt_view(t), k@, title_key(), opt_view(v));
    let ghost gd = keep_first(opt_view(d), k@, body_key(), opt_view(v));
    let (t2, d2) = if t.is_none() && is_title_key(&k) {
        (v, d)
    } else if d.is_none() && is_body_key(&k) {
        (t, v)
    } else {
        (t, d)
    };
    proof {
        assert(title_key() != body_key()) by {
            assert(title_key().len() != body_key().len());
        }
        assert(opt_view(t2) == gt);
        assert(opt_view(d2) == gd);
    }
    let n = skip_whitespace(b, e);
    if n < b.len() && b[n] == 125 {
        Some((t2, d2, n + 1))
    } else if n < b.len() && b[n] == 44 {
        let next = skip_whitespace(b, n + 1);
        if i < next && next <= b.len() {
            parse_members(b, next, t2, d2)
        } else {
            None
        }
    } else {
        None
    }
}

fn parse_object(b: &[u8]) -> (r: Option<(Vec<u8>, Vec<u8>)>)
    ensures
        match object_fields(b@) {
            None => r.is_none(),
            Some((t, d)) => r.is_some() && r.unwrap().0@ == t && r.unwrap().1@ == d,
        },
{
    let o = skip_whitespace(b, 0);
    if !(o < b.len() && b[o] == 123) {
        return None;
    }
    let f = skip_whitespace(b, o + 1);
    let r = if f < b.len() && b[f] == 125 {
        Some((None, None, f + 1))
    } else {
        parse_members(b, f, None, None)
    };
    match r {
        Some((Some(t), Some(d), e)) => {
            if skip_whitespace(b, e) == b.len() {
                Some((t, d))
            } else {
                None
            }
        },
        _ => None,
    }
}

/// Relies on `std::str::from_utf8`: it accepts exactly the valid UTF-8
/// byte sequences, and the text it returns is made of those bytes.
#[verifier::external_body]
fn utf8_str<'a>(b: &'a [u8]) -> (r: Option<&'a str>)
    ensures
        r.is_some() == valid_utf8(b@),
        r.is_some() ==> r.unwrap().spec_bytes() == b@,
{
    std::str::from_utf8(b).ok()
}

fn utf8_string(b: &[u8]) -> (r: Option<String>)
    ensures
        r.is_some() == valid_utf8(b@),
        r.is_some() ==> r.unwrap()@ == decode_utf8(b@),
{
    match utf8_str(b) {
        Some(s) => {
            proof {
                encode_utf8_decode_utf8(s@);
            }
            Some(s.to_owned())
        },
        None => None,
    }
}

/// The human-visible fields of a plaintext payload.
#[derive(Debug, Clone)]
pub struct DecryptedPayloadBlob {
    pub title: String,
    pub body: String,
}

impl DecryptedPayloadBlob {
    /// Decodes the title and body out of base64 text; `PayloadDecode` exactly
    /// where the text is not a well-formed blob.
    pub fn from_base64_encoded(blob_string: String) -> (r: Result<DecryptedPayloadBlob, Error>)
        ensures
            match blob_text(encode_utf8(blob_string@)) {
                Some((t, d)) => r.is_ok() && r.unwrap().title@ == t && r.unwrap().body@ == d,
                None => r == Err::<DecryptedPayloadBlob, Error>(Error::PayloadDecode),
            },
    {
        let bytes = blob_string.as_str().as_bytes();
        let json = match decode_base64(bytes) {
            Some(j) => j,
            None => {
                return Err(Error::PayloadDecode);
            },
        };
        if utf8_str(json.as_slice()).is_none() {
            return Err(Error::PayloadDecode);
        }
        let (t, d) = match parse_object(json.as_slice()) {
            Some(p) => p,
            None => {
                return Err(Error::PayloadDecode);
            },
        };
        let title = match utf8_string(t.as_slice()) {
            Some(s) => s,
            None => {
                return Err(Error::PayloadDecode);
            },
        };
        let body = match utf8_string(d.as_slice()) {
            Some(s) => s,
            None => {
                return Err(Error::PayloadDecode);
            },
        };
        Ok(DecryptedPayloadBlob { title, body })
    }
}

} // verus!
