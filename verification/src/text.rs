//! Byte-level substring search.
//!
//! Endpoint configuration paths and endpoint domain names are handled as byte
//! strings; an endpoint matches a load report when the report's domain occurs
//! somewhere in the configuration path.

use vstd::prelude::*;

verus! {

/// The needle `n` occurs in the haystack `h` starting at offset `i`.
pub open spec fn matches_at(h: Seq<u8>, n: Seq<u8>, i: int) -> bool {
    &&& 0 <= i
    &&& i + n.len() <= h.len()
    &&& forall|k: int| 0 <= k < n.len() ==> h[i + k] == n[k]
}

/// The needle `n` occurs somewhere in the haystack `h`.
pub open spec fn has_substring(h: Seq<u8>, n: Seq<u8>) -> bool {
    exists|i: int| matches_at(h, n, i)
}

/// Does `n` occur in `h` starting exactly at offset `i`?
fn match_at(h: &Vec<u8>, n: &Vec<u8>, i: usize) -> (r: bool)
    requires
        i + n@.len() <= h@.len(),
    ensures
        r == matches_at(h@, n@, i as int),
{
    let hl = h.len();
    let mut k: usize = 0;
    while k < n.len()
        invariant
            hl == h@.len(),
            i + n@.len() <= h@.len(),
            k <= n@.len(),
            forall|x: int| 0 <= x < k ==> h@[i + x] == n@[x],
        decreases n@.len() - k,
    {
        assert(i + k < hl);
        if h[i + k] != n[k] {
            assert(!matches_at(h@, n@, i as int));
            return false;
        }
        k += 1;
    }
    true
}

/// Does the needle `n` occur anywhere in the haystack `h`?
pub fn contains_substring(h: &Vec<u8>, n: &Vec<u8>) -> (r: bool)
    ensures
        r == has_substring(h@, n@),
{
    if n.len() > h.len() {
        assert(forall|i: int| !matches_at(h@, n@, i));
        return false;
    }
    if n.len() == 0 {
        assert(matches_at(h@, n@, 0));
        return true;
    }
    let last = h.len() - n.len();
    let mut i: usize = 0;
    while i <= last
        invariant
            n@.len() <= h@.len(),
            last == h@.len() - n@.len(),
            last < usize::MAX,
            i <= last + 1,
            forall|x: int| 0 <= x < i ==> !matches_at(h@, n@, x),
        decreases last + 1 - i,
    {
        if match_at(h, n, i) {
            return true;
        }
        i += 1;
    }
    assert(forall|x: int| !matches_at(h@, n@, x)) by {
        assert(forall|x: int| x > last ==> !matches_at(h@, n@, x));
    }
    false
}

} // verus!
