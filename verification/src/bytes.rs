//! Byte-level utilities shared by the document-processing stages.
//!
//! Documents, references and payload bodies are modelled as sequences of
//! bytes; ASCII string literals are turned into byte vectors through
//! [`str_bytes`], whose result is pinned to [`chars_to_bytes`] of the
//! literal's characters.

use vstd::prelude::*;

verus! {

/// The byte value of each character of an ASCII string, in order.
pub open spec fn chars_to_bytes(s: Seq<char>) -> Seq<u8> {
    s.map_values(|c: char| c as u8)
}

/// Turns an ASCII string into the vector of its byte values.
pub fn str_bytes(s: &str) -> (v: Vec<u8>)
    requires
        s.is_ascii(),
    ensures
        v@ == chars_to_bytes(s@),
{
    proof {
        vstd::string::is_ascii_spec_bytes(s);
    }
    let b = s.as_bytes();
    let v = vstd::slice::slice_to_vec(b);
    proof {
        assert(v@ =~= chars_to_bytes(s@));
    }
    v
}

/// True when `b` equals the contents of `s` element for element.
pub fn bytes_eq(a: &[u8], b: &[u8]) -> (r: bool)
    ensures
        r == (a@ == b@),
{
    if a.len() != b.len() {
        proof {
            assert(a@ != b@) by {
                assert(a@.len() != b@.len());
            }
        }
        return false;
    }
    let mut i: usize = 0;
    while i < a.len()
        invariant
            0 <= i <= a.len(),
            a@.len() == b@.len(),
            forall|j: int| 0 <= j < i ==> a@[j] == b@[j],
        decreases a.len() - i,
    {
        if a[i] != b[i] {
            return false;
        }
        i += 1;
    }
    proof {
        assert(a@ =~= b@);
    }
    true
}

/// The byte sequences held by a list of byte vectors, in order.
pub open spec fn views_of(s: Seq<Vec<u8>>) -> Seq<Seq<u8>> {
    s.map_values(|v: Vec<u8>| v@)
}

/// True when `s` holds `prefix` starting at position `i`.
pub open spec fn has_at(s: Seq<u8>, prefix: Seq<u8>, i: int) -> bool {
    &&& 0 <= i
    &&& i + prefix.len() <= s.len()
    &&& s.subrange(i, i + prefix.len() as int) == prefix
}

/// Checks whether `s` holds `prefix` starting at position `i`.
pub fn check_at(s: &[u8], prefix: &[u8], i: usize) -> (r: bool)
    requires
        i <= s@.len(),
    ensures
        r == has_at(s@, prefix@, i as int),
{
    if s.len() - i < prefix.len() {
        return false;
    }
    let mut j: usize = 0;
    while j < prefix.len()
        invariant
            0 <= j <= prefix.len(),
            i + prefix.len() <= s.len(),
            forall|k: int| 0 <= k < j ==> s@[i + k] == prefix@[k],
        decreases prefix.len() - j,
    {
        if s[i + j] != prefix[j] {
            proof {
                assert(s@.subrange(i as int, i + prefix@.len() as int)[j as int] == s@[i + j]);
            }
            return false;
        }
        j += 1;
    }
    proof {
        assert(s@.subrange(i as int, i + prefix@.len() as int) =~= prefix@);
    }
    true
}

} // verus!
