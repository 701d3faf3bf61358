//! Verified building blocks for working with byte sequences: substring
//! occurrence, first-occurrence search, and appending ranges of one buffer
//! to another.

use vstd::prelude::*;
use vstd::string::StringSliceAdditionalSpecFns;

verus! {

/// `pat` occurs in `s` starting at position `i`.
pub open spec fn occurs_at(s: Seq<u8>, pat: Seq<u8>, i: int) -> bool {
    0 <= i && i + pat.len() <= s.len() && s.subrange(i, i + pat.len() as int) == pat
}

/// `i` is the first position at or after `lo` where `pat` occurs in `s`.
pub open spec fn is_first_occurrence(s: Seq<u8>, pat: Seq<u8>, lo: int, i: int) -> bool {
    lo <= i && occurs_at(s, pat, i) && forall|j: int| lo <= j < i ==> !occurs_at(s, pat, j)
}

/// The first position at or after `lo` where `pat` occurs in `s`, if any.
#[verifier::opaque]
pub open spec fn find_spec(s: Seq<u8>, pat: Seq<u8>, lo: int) -> Option<int> {
    if exists|i: int| is_first_occurrence(s, pat, lo, i) {
        Some(choose|i: int| is_first_occurrence(s, pat, lo, i))
    } else {
        None
    }
}

/// At most one position is the first occurrence.
pub proof fn lemma_first_occurrence_unique(s: Seq<u8>, pat: Seq<u8>, lo: int, i1: int, i2: int)
    requires
        is_first_occurrence(s, pat, lo, i1),
        is_first_occurrence(s, pat, lo, i2),
    ensures
        i1 == i2,
{
    if i1 < i2 {
        assert(!occurs_at(s, pat, i1));
    }
    if i2 < i1 {
        assert(!occurs_at(s, pat, i2));
    }
}

/// `find_spec` returns exactly the first occurrence.
pub proof fn lemma_find_spec_some(s: Seq<u8>, pat: Seq<u8>, lo: int, i: int)
    requires
        is_first_occurrence(s, pat, lo, i),
    ensures
        find_spec(s, pat, lo) == Some(i),
{
    reveal(find_spec);
    let w = choose|k: int| is_first_occurrence(s, pat, lo, k);
    lemma_first_occurrence_unique(s, pat, lo, w, i);
}

/// When no occurrence exists at or after `lo`, `find_spec` returns `None`.
pub proof fn lemma_find_spec_none(s: Seq<u8>, pat: Seq<u8>, lo: int)
    requires
        forall|j: int| lo <= j ==> !occurs_at(s, pat, j),
    ensures
        find_spec(s, pat, lo) is None,
{
    reveal(find_spec);
    if exists|i: int| is_first_occurrence(s, pat, lo, i) {
        let w = choose|i: int| is_first_occurrence(s, pat, lo, i);
        assert(!occurs_at(s, pat, w));
    }
}

/// Inverting `find_spec`: a found position is the first occurrence.
pub proof fn lemma_find_spec_inv(s: Seq<u8>, pat: Seq<u8>, lo: int, i: int)
    requires
        find_spec(s, pat, lo) == Some(i),
    ensures
        is_first_occurrence(s, pat, lo, i),
{
    reveal(find_spec);
}

/// Does `pat` occur in `s` starting exactly at `i`?
fn matches_at(s: &Vec<u8>, pat: &Vec<u8>, i: usize) -> (r: bool)
    requires
        i + pat@.len() <= s@.len(),
    ensures
        r == occurs_at(s@, pat@, i as int),
{
    let ghost sub = s@.subrange(i as int, i + pat@.len());
    let slen = s.len();
    let mut k: usize = 0;
    while k < pat.len()
        invariant
            k <= pat@.len(),
            slen == s@.len(),
            i + pat@.len() <= s@.len(),
            sub == s@.subrange(i as int, i + pat@.len()),
            forall|j: int| 0 <= j < k ==> s@[i + j] == pat@[j],
        decreases pat@.len() - k,
    {
        if s[i + k] != pat[k] {
            assert(sub[k as int] != pat@[k as int]);
            return false;
        }
        k += 1;
    }
    assert(sub =~= pat@);
    true
}

/// Finds the first occurrence of `pat` in `s` at or after position `lo`.
pub fn find_from(s: &Vec<u8>, pat: &Vec<u8>, lo: usize) -> (r: Option<usize>)
    ensures
        match r {
            Some(i) => is_first_occurrence(s@, pat@, lo as int, i as int),
            None => forall|j: int| lo <= j ==> !occurs_at(s@, pat@, j),
        },
        match r {
            Some(i) => find_spec(s@, pat@, lo as int) == Some(i as int),
            None => find_spec(s@, pat@, lo as int) is None,
        },
{
    let r = find_from_rel(s, pat, lo);
    proof {
        match r {
            Some(i) => lemma_find_spec_some(s@, pat@, lo as int, i as int),
            None => lemma_find_spec_none(s@, pat@, lo as int),
        }
    }
    r
}

/// The search itself, specified relationally.
fn find_from_rel(s: &Vec<u8>, pat: &Vec<u8>, lo: usize) -> (r: Option<usize>)
    ensures
        match r {
            Some(i) => is_first_occurrence(s@, pat@, lo as int, i as int),
            None => forall|j: int| lo <= j ==> !occurs_at(s@, pat@, j),
        },
{
    if pat.len() > s.len() {
        return None;
    }
    let last = s.len() - pat.len();
    if lo > last {
        return None;
    }
    if pat.len() == 0 {
        proof {
            assert(s@.subrange(lo as int, lo as int) =~= pat@);
        }
        return Some(lo);
    }
    let mut i: usize = lo;
    while i <= last
        invariant
            lo <= i,
            1 <= pat@.len(),
            s@.len() <= usize::MAX,
            pat@.len() + last == s@.len(),
            i <= last + 1,
            forall|j: int| lo <= j < i ==> !occurs_at(s@, pat@, j),
        decreases last + 1 - i,
    {
        if matches_at(s, pat, i) {
            return Some(i);
        }
        i += 1;
    }
    None
}

/// Appends `src[from..to]` to `out`.
pub fn push_range(out: &mut Vec<u8>, src: &Vec<u8>, from: usize, to: usize)
    requires
        from <= to <= src@.len(),
    ensures
        final(out)@ == old(out)@ + src@.subrange(from as int, to as int),
{
    let mut k: usize = from;
    while k < to
        invariant
            from <= k <= to <= src@.len(),
            out@ == old(out)@ + src@.subrange(from as int, k as int),
        decreases to - k,
    {
        out.push(src[k]);
        proof {
            assert(out@ =~= old(out)@ + src@.subrange(from as int, k + 1));
        }
        k += 1;
    }
}

/// Appends all of `src` to `out`.
pub fn push_bytes(out: &mut Vec<u8>, src: &Vec<u8>)
    ensures
        final(out)@ == old(out)@ + src@,
{
    push_range(out, src, 0, src.len());
    proof {
        assert(src@.subrange(0, src@.len() as int) =~= src@);
    }
}

/// Do the two byte vectors hold the same bytes?
pub fn bytes_eq(a: &Vec<u8>, b: &Vec<u8>) -> (r: bool)
    ensures
        r == (a@ == b@),
{
    if a.len() != b.len() {
        assert(a@ != b@);
        return false;
    }
    let mut k: usize = 0;
    while k < a.len()
        invariant
            k <= a@.len(),
            a@.len() == b@.len(),
            forall|j: int| 0 <= j < k ==> a@[j] == b@[j],
        decreases a@.len() - k,
    {
        if a[k] != b[k] {
            return false;
        }
        k += 1;
    }
    proof {
        assert(a@ =~= b@);
    }
    true
}

/// Appends all of the slice `src` to `out`.
pub fn push_slice(out: &mut Vec<u8>, src: &[u8])
    ensures
        final(out)@ == old(out)@ + src@,
{
    let mut k: usize = 0;
    while k < src.len()
        invariant
            k <= src@.len(),
            out@ == old(out)@ + src@.subrange(0, k as int),
        decreases src@.len() - k,
    {
        out.push(src[k]);
        proof {
            assert(out@ =~= old(out)@ + src@.subrange(0, k + 1));
        }
        k += 1;
    }
    proof {
        assert(src@.subrange(0, src@.len() as int) =~= src@);
    }
}

/// Appends the UTF-8 bytes of `s` to `out`.
pub fn push_str_bytes(out: &mut Vec<u8>, s: &str)
    ensures
        final(out)@ == old(out)@ + s.spec_bytes(),
{
    push_slice(out, s.as_bytes());
}

/// Copies `s@` into a fresh byte vector, starting from a borrowed slice.
pub fn slice_to_vec(s: &[u8]) -> (r: Vec<u8>)
    ensures
        r@ == s@,
{
    let mut out: Vec<u8> = Vec::new();
    let mut k: usize = 0;
    while k < s.len()
        invariant
            k <= s@.len(),
            out@ == s@.subrange(0, k as int),
        decreases s@.len() - k,
    {
        out.push(s[k]);
        proof {
            assert(out@ =~= s@.subrange(0, k + 1));
        }
        k += 1;
    }
    proof {
        assert(s@.subrange(0, s@.len() as int) =~= s@);
    }
    out
}

} // verus!
