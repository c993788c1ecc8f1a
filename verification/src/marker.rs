//! The process marker.
//!
//! The marker file's entire contents are the decimal form of the identifier
//! of the most recently spawned tunnel process. This module parses marker
//! contents back into an identifier, tolerating surrounding ASCII whitespace
//! and one leading plus sign as a decimal parse does (whitespace beyond ASCII
//! is not trimmed), and produces the contents to persist for a freshly
//! spawned process. The
//! two directions round-trip: a marker written for an identifier always
//! parses back to that identifier.

use vstd::prelude::*;
use vstd::arithmetic::div_mod::lemma_fundamental_div_mod;

verus! {

/// An ASCII decimal digit.
pub open spec fn is_digit(b: u8) -> bool {
    48 <= b <= 57
}

/// ASCII whitespace tolerated around the recorded identifier: space, tab,
/// line feed, vertical tab, form feed and carriage return. Whitespace beyond
/// ASCII is not trimmed; a hand-written marker holding it parses to nothing.
pub open spec fn is_space(b: u8) -> bool {
    b == 32 || (9 <= b && b <= 13)
}

/// Every byte of `s` is a decimal digit.
pub open spec fn all_digits(s: Seq<u8>) -> bool {
    forall|i: int| 0 <= i < s.len() ==> is_digit(s[i])
}

/// The value of a digit string, most significant digit first.
pub open spec fn digits_val(s: Seq<u8>) -> int
    decreases s.len(),
{
    if s.len() == 0 {
        0
    } else {
        digits_val(s.drop_last()) * 10 + (s.last() - 48)
    }
}

/// `s` with leading whitespace removed.
pub open spec fn trim_start(s: Seq<u8>) -> Seq<u8>
    decreases s.len(),
{
    if s.len() > 0 && is_space(s[0]) {
        trim_start(s.drop_first())
    } else {
        s
    }
}

/// `s` with trailing whitespace removed.
pub open spec fn trim_end(s: Seq<u8>) -> Seq<u8>
    decreases s.len(),
{
    if s.len() > 0 && is_space(s.last()) {
        trim_end(s.drop_last())
    } else {
        s
    }
}

/// `s` with surrounding whitespace removed.
pub open spec fn trimmed(s: Seq<u8>) -> Seq<u8> {
    trim_end(trim_start(s))
}

/// `s` with one leading plus sign removed, as a decimal parse tolerates.
pub open spec fn digits_part(s: Seq<u8>) -> Seq<u8> {
    if s.len() > 0 && s[0] == 43 {
        s.drop_first()
    } else {
        s
    }
}

/// The process identifier recorded in marker contents `s`: after trimming
/// and an optional leading plus sign, one or more decimal digits whose value
/// fits in `u32`.
pub open spec fn pid_of(s: Seq<u8>) -> Option<u32> {
    let d = digits_part(trimmed(s));
    if d.len() > 0 && all_digits(d) && digits_val(d) <= u32::MAX {
        Some(digits_val(d) as u32)
    } else {
        None
    }
}

/// The decimal digit string of `n`, most significant digit first.
pub open spec fn dec_of(n: nat) -> Seq<u8>
    decreases n,
{
    if n < 10 {
        seq![(48 + n) as u8]
    } else {
        dec_of(n / 10).push((48 + n % 10) as u8)
    }
}

proof fn lemma_trim_start_at(s: Seq<u8>, lo: int)
    requires
        0 <= lo <= s.len(),
        forall|i: int| 0 <= i < lo ==> is_space(s[i]),
        lo < s.len() ==> !is_space(s[lo]),
    ensures
        trim_start(s) == s.subrange(lo, s.len() as int),
    decreases lo,
{
    if lo == 0 {
        assert(trim_start(s) =~= s.subrange(0, s.len() as int));
    } else {
        let t = s.drop_first();
        assert(t =~= s.subrange(1, s.len() as int));
        lemma_trim_start_at(t, lo - 1);
        assert(t.subrange(lo - 1, t.len() as int) =~= s.subrange(lo, s.len() as int));
    }
}

proof fn lemma_trim_end_at(s: Seq<u8>, hi: int)
    requires
        0 <= hi <= s.len(),
        forall|i: int| hi <= i < s.len() ==> is_space(s[i]),
        hi > 0 ==> !is_space(s[hi - 1]),
    ensures
        trim_end(s) == s.subrange(0, hi),
    decreases s.len() - hi,
{
    if hi == s.len() {
        assert(trim_end(s) =~= s.subrange(0, hi));
    } else {
        let t = s.drop_last();
        assert(t =~= s.subrange(0, s.len() - 1));
        lemma_trim_end_at(t, hi);
        assert(t.subrange(0, hi) =~= s.subrange(0, hi));
    }
}

/// Parse marker contents into the recorded process identifier.
///
/// Returns `None` when the contents are empty, hold anything but decimal
/// digits after optional ASCII whitespace and one optional plus sign, or
/// encode a value too large for `u32`.
pub fn parse_pid(contents: &Vec<u8>) -> (r: Option<u32>)
    ensures
        r == pid_of(contents@),
{
    let n = contents.len();
    let mut lo: usize = 0;
    while lo < n && is_space_byte(contents[lo])
        invariant
            n == contents@.len(),
            lo <= n,
            forall|i: int| 0 <= i < lo ==> is_space(contents@[i]),
        decreases n - lo,
    {
        lo += 1;
    }
    proof {
        lemma_trim_start_at(contents@, lo as int);
    }
    if lo == n {
        proof {
            assert(trim_start(contents@) =~= Seq::<u8>::empty());
            assert(trimmed(contents@).len() == 0);
        }
        return None;
    }
    let mut hi: usize = n;
    while hi > lo && is_space_byte(contents[hi - 1])
        invariant
            n == contents@.len(),
            lo <= hi <= n,
            forall|i: int| hi <= i < n ==> is_space(contents@[i]),
        decreases hi,
    {
        hi -= 1;
    }
    assert(hi > lo && !is_space(contents@[hi - 1]));
    let ghost t = contents@.subrange(lo as int, hi as int);
    proof {
        let t1 = trim_start(contents@);
        lemma_trim_end_at(t1, hi - lo);
        assert(t1.subrange(0, hi - lo) =~= t);
        assert(trimmed(contents@) == t);
    }
    let mut dlo = lo;
    if contents[dlo] == 43 {
        dlo += 1;
    }
    let ghost d = contents@.subrange(dlo as int, hi as int);
    proof {
        if contents@[lo as int] == 43 {
            assert(t.drop_first() =~= d);
            assert(digits_part(t) == d);
        } else {
            assert(d =~= t);
            assert(digits_part(t) == d);
        }
    }
    if dlo == hi {
        assert(d.len() == 0);
        return None;
    }
    let mut val: u64 = 0;
    let mut over = false;
    let mut k = dlo;
    while k < hi
        invariant
            n == contents@.len(),
            dlo <= k <= hi <= n,
            d == contents@.subrange(dlo as int, hi as int),
            digits_part(trimmed(contents@)) == d,
            forall|i: int| dlo <= i < k ==> is_digit(contents@[i]),
            !over ==> val == digits_val(d.subrange(0, k - dlo)) && val <= u32::MAX,
            over ==> digits_val(d.subrange(0, k - dlo)) > u32::MAX,
        decreases hi - k,
    {
        let b = contents[k];
        if b < 48 || b > 57 {
            assert(!all_digits(digits_part(trimmed(contents@)))) by {
                assert(d[k - dlo] == contents@[k as int]);
            }
            return None;
        }
        proof {
            assert(d.subrange(0, k + 1 - dlo).drop_last() =~= d.subrange(0, k - dlo));
            assert(d.subrange(0, k + 1 - dlo).last() == contents@[k as int]);
        }
        if over {
            assert(digits_val(d.subrange(0, k + 1 - dlo)) > u32::MAX);
        } else {
            let nv = val * 10 + (b - 48) as u64;
            assert(nv == digits_val(d.subrange(0, k + 1 - dlo)));
            if nv > u32::MAX as u64 {
                over = true;
            } else {
                val = nv;
            }
        }
        k += 1;
    }
    assert(d.subrange(0, hi - dlo) =~= d);
    if over {
        return None;
    }
    assert(all_digits(d));
    Some(val as u32)
}

/// Is `b` a tolerated whitespace byte?
fn is_space_byte(b: u8) -> (r: bool)
    ensures
        r == is_space(b),
{
    b == 32 || (b >= 9 && b <= 13)
}

fn push_dec(n: u32, out: &mut Vec<u8>)
    ensures
        final(out)@ == old(out)@ + dec_of(n as nat),
    decreases n,
{
    if n < 10 {
        out.push(48 + (n as u8));
        assert(out@ =~= old(out)@ + dec_of(n as nat));
    } else {
        push_dec(n / 10, out);
        out.push(48 + ((n % 10) as u8));
        assert(out@ =~= old(out)@ + dec_of(n as nat));
    }
}

/// The marker contents to persist for a freshly spawned process: the decimal
/// form of its identifier, which `parse_pid` reads back unchanged.
pub fn marker_contents(pid: u32) -> (r: Vec<u8>)
    ensures
        r@ == dec_of(pid as nat),
        pid_of(r@) == Some(pid),
{
    let mut out: Vec<u8> = Vec::new();
    push_dec(pid, &mut out);
    proof {
        assert(out@ =~= dec_of(pid as nat));
        lemma_pid_roundtrip(pid);
    }
    out
}

proof fn lemma_dec_of_digits(n: nat)
    ensures
        dec_of(n).len() > 0,
        all_digits(dec_of(n)),
        digits_val(dec_of(n)) == n,
    decreases n,
{
    if n < 10 {
        let s = dec_of(n);
        assert(s.drop_last() =~= Seq::<u8>::empty());
        assert(digits_val(Seq::<u8>::empty()) == 0);
        assert(s.last() == 48 + n);
        assert(digits_val(s) == n);
    } else {
        lemma_dec_of_digits(n / 10);
        let s = dec_of(n);
        assert(s.drop_last() =~= dec_of(n / 10));
        assert(n % 10 < 10);
        assert(s.last() == 48 + n % 10);
        assert(digits_val(s) == digits_val(dec_of(n / 10)) * 10 + n % 10);
        lemma_fundamental_div_mod(n as int, 10);
        assert(digits_val(s) == (n / 10) * 10 + n % 10);
    }
}

/// The marker round trip: the decimal form of an identifier always parses
/// back to that identifier, so a persisted marker is a faithful record of the
/// process it names.
pub proof fn lemma_pid_roundtrip(pid: u32)
    ensures
        pid_of(dec_of(pid as nat)) == Some(pid),
{
    lemma_dec_of_digits(pid as nat);
    let s = dec_of(pid as nat);
    assert(is_digit(s[0]) && !is_space(s[0]));
    assert(trim_start(s) == s);
    assert(is_digit(s.last()) && !is_space(s.last()));
    assert(trim_end(s) == s);
    assert(s[0] != 43);
    assert(digits_part(s) == s);
}

} // verus!
