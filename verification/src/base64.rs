//! A base64 encoder for inlining image bodies as data references.
//!
//! Standard alphabet, `=` padding. The specification fixes every output
//! byte as a function of the input bytes.

use vstd::prelude::*;

verus! {

/// The alphabet byte for a six-bit value.
pub open spec fn b64_char(n: int) -> u8
    recommends
        0 <= n < 64,
{
    if n < 26 {
        (65 + n) as u8  // A..Z
    } else if n < 52 {
        (97 + (n - 26)) as u8  // a..z
    } else if n < 62 {
        (48 + (n - 52)) as u8  // 0..9
    } else if n == 62 {
        43  // +
    } else {
        47  // /
    }
}

/// The four alphabet bytes of one full three-byte group.
pub open spec fn b64_quad(a: u8, b: u8, c: u8) -> Seq<u8> {
    seq![
        b64_char(a as int / 4),
        b64_char((a as int % 4) * 16 + b as int / 16),
        b64_char((b as int % 16) * 4 + c as int / 64),
        b64_char(c as int % 64),
    ]
}

/// The encoding of `s` from position `i` on: full groups, then a padded
/// tail group of one or two bytes.
pub open spec fn b64_from(s: Seq<u8>, i: int) -> Seq<u8>
    decreases s.len() - i,
{
    if i < 0 || i >= s.len() {
        Seq::empty()
    } else if i + 3 <= s.len() {
        b64_quad(s[i], s[i + 1], s[i + 2]) + b64_from(s, i + 3)
    } else if i + 2 == s.len() {
        seq![
            b64_char(s[i] as int / 4),
            b64_char((s[i] as int % 4) * 16 + s[i + 1] as int / 16),
            b64_char((s[i + 1] as int % 16) * 4),
            61,
        ]
    } else {
        seq![b64_char(s[i] as int / 4), b64_char((s[i] as int % 4) * 16), 61, 61]
    }
}

/// The base64 encoding of a byte string.
pub open spec fn base64_spec(s: Seq<u8>) -> Seq<u8> {
    b64_from(s, 0)
}

fn b64_char_exec(n: u8) -> (r: u8)
    requires
        n < 64,
    ensures
        r == b64_char(n as int),
{
    if n < 26 {
        65 + n
    } else if n < 52 {
        97 + (n - 26)
    } else if n < 62 {
        48 + (n - 52)
    } else if n == 62 {
        43
    } else {
        47
    }
}

fn base64_from(s: &[u8], i: usize) -> (out: Vec<u8>)
    requires
        i <= s@.len(),
    ensures
        out@ == b64_from(s@, i as int),
    decreases s@.len() - i,
{
    let mut out: Vec<u8> = Vec::new();
    if i >= s.len() {
        proof {
            assert(out@ =~= b64_from(s@, i as int));
        }
        return out;
    }
    if s.len() - i >= 3 {
        let a = s[i];
        let b = s[i + 1];
        let c = s[i + 2];
        out.push(b64_char_exec(a / 4));
        out.push(b64_char_exec((a % 4) * 16 + b / 16));
        out.push(b64_char_exec((b % 16) * 4 + c / 64));
        out.push(b64_char_exec(c % 64));
        let mut rest = base64_from(s, i + 3);
        out.append(&mut rest);
        proof {
            assert(out@ =~= b64_quad(a, b, c) + b64_from(s@, i as int + 3));
        }
    } else if s.len() - i == 2 {
        let a = s[i];
        let b = s[i + 1];
        out.push(b64_char_exec(a / 4));
        out.push(b64_char_exec((a % 4) * 16 + b / 16));
        out.push(b64_char_exec((b % 16) * 4));
        out.push(61);
        proof {
            assert(out@ =~= b64_from(s@, i as int));
        }
    } else {
        let a = s[i];
        out.push(b64_char_exec(a / 4));
        out.push(b64_char_exec((a % 4) * 16));
        out.push(61);
        out.push(61);
        proof {
            assert(out@ =~= b64_from(s@, i as int));
        }
    }
    out
}

/// Encodes a byte string in base64.
pub fn base64_encode(s: &[u8]) -> (out: Vec<u8>)
    ensures
        out@ == base64_spec(s@),
{
    base64_from(s, 0)
}

} // verus!
