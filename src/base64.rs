//! Decoding of the standard base64 alphabet with `=` padding.
use vstd::prelude::*;

verus! {

/// The value of one symbol of the standard alphabet, if it is one.
pub open spec fn symbol_value(c: u8) -> Option<u8> {
    if 65 <= c && c <= 90 {
        Some((c - 65) as u8)
    } else if 97 <= c && c <= 122 {
        Some((c - 71) as u8)
    } else if 48 <= c && c <= 57 {
        Some((c + 4) as u8)
    } else if c == 43 {
        Some(62u8)
    } else if c == 47 {
        Some(63u8)
    } else {
        None
    }
}

pub open spec fn is_pad(c: u8) -> bool {
    c == 61
}

/// The bytes that one group of four symbols stands for. Padding is only
/// allowed when `last` holds, and the bits that padding drops must be zero.
pub open spec fn decode_group(a: u8, b: u8, c: u8, d: u8, last: bool) -> Option<Seq<u8>> {
    match (symbol_value(a), symbol_value(b), symbol_value(c), symbol_value(d)) {
        (Some(v0), Some(v1), Some(v2), Some(v3)) => Some(
            seq![
                (v0 * 4 + v1 / 16) as u8,
                ((v1 % 16) * 16 + v2 / 4) as u8,
                ((v2 % 4) * 64 + v3) as u8,
            ],
        ),
        (Some(v0), Some(v1), Some(v2), None) => if last && is_pad(d) && v2 % 4 == 0 {
            Some(seq![(v0 * 4 + v1 / 16) as u8, ((v1 % 16) * 16 + v2 / 4) as u8])
        } else {
            None
        },
        (Some(v0), Some(v1), None, None) => if last && is_pad(c) && is_pad(d) && v1 % 16 == 0 {
            Some(seq![(v0 * 4 + v1 / 16) as u8])
        } else {
            None
        },
        _ => None,
    }
}

/// Decodes `s` from position `i` on, appending to `acc`.
pub open spec fn decode_from(s: Seq<u8>, i: int, acc: Seq<u8>) -> Option<Seq<u8>>
    decreases s.len() - i,
{
    if i < 0 || i > s.len() || (s.len() - i) % 4 != 0 {
        None
    } else if i == s.len() {
        Some(acc)
    } else {
        match decode_group(s[i], s[i + 1], s[i + 2], s[i + 3], i + 4 == s.len()) {
            Some(g) => decode_from(s, i + 4, acc + g),
            None => None,
        }
    }
}

/// What the base64 text `s` stands for, or `None` where it is not
/// well-formed padded base64.
pub open spec fn base64_decode(s: Seq<u8>) -> Option<Seq<u8>> {
    decode_from(s, 0, Seq::empty())
}

fn symbol(c: u8) -> (r: Option<u8>)
    ensures
        r == symbol_value(c),
{
    if 65 <= c && c <= 90 {
        Some(c - 65)
    } else if 97 <= c && c <= 122 {
        Some(c - 71)
    } else if 48 <= c && c <= 57 {
        Some(c + 4)
    } else if c == 43 {
        Some(62)
    } else if c == 47 {
        Some(63)
    } else {
        None
    }
}

fn push_group(a: u8, b: u8, c: u8, d: u8, last: bool, out: &mut Vec<u8>) -> (ok: bool)
    ensures
        ok == decode_group(a, b, c, d, last).is_some(),
        ok ==> final(out)@ == old(out)@ + decode_group(a, b, c, d, last).unwrap(),
{
    let s0 = symbol(a);
    let s1 = symbol(b);
    let s2 = symbol(c);
    let s3 = symbol(d);
    match (s0, s1, s2, s3) {
        (Some(v0), Some(v1), Some(v2), Some(v3)) => {
            out.push(v0 * 4 + v1 / 16);
            out.push((v1 % 16) * 16 + v2 / 4);
            out.push((v2 % 4) * 64 + v3);
            assert(final(out)@ =~= old(out)@ + decode_group(a, b, c, d, last).unwrap());
            true
        },
        (Some(v0), Some(v1), Some(v2), None) => {
            if last && d == 61 && v2 % 4 == 0 {
                out.push(v0 * 4 + v1 / 16);
                out.push((v1 % 16) * 16 + v2 / 4);
                assert(final(out)@ =~= old(out)@ + decode_group(a, b, c, d, last).unwrap());
                true
            } else {
                false
            }
        },
        (Some(v0), Some(v1), None, None) => {
            if last && c == 61 && d == 61 && v1 % 16 == 0 {
                out.push(v0 * 4 + v1 / 16);
                assert(final(out)@ =~= old(out)@ + decode_group(a, b, c, d, last).unwrap());
                true
            } else {
                false
            }
        },
        _ => false,
    }
}

/// Decodes base64 text; `None` exactly where it is not well-formed.
pub fn decode_base64(s: &[u8]) -> (r: Option<Vec<u8>>)
    ensures
        r.is_some() == base64_decode(s@).is_some(),
        r.is_some() ==> r.unwrap()@ == base64_decode(s@).unwrap(),
{
    let n = s.len();
    if n % 4 != 0 {
        return None;
    }
    let mut out: Vec<u8> = Vec::new();
    let mut i: usize = 0;
    while i < n
        invariant
            n == s@.len(),
            n % 4 == 0,
            i <= n,
            i % 4 == 0,
            base64_decode(s@) == decode_from(s@, i as int, out@),
        decreases n - i,
    {
        let last = i + 4 == n;
        let ok = push_group(s[i], s[i + 1], s[i + 2], s[i + 3], last, &mut out);
        if !ok {
            return None;
        }
        i = i + 4;
    }
    Some(out)
}

} // verus!
