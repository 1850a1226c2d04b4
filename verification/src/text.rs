//! Small verified text helpers shared by the request builders, the
//! response interpreters and the durable encoders.

use vstd::prelude::*;

verus! {

/// Relies on String::push: appends exactly the one character to the string.
#[verifier::external_body]
pub(crate) fn push_char(s: &mut String, c: char)
    ensures
        final(s)@ == old(s)@ + seq![c],
{
    s.push(c)
}

/// Whether `pat` occurs at position `i` of `s`.
pub open spec fn occurs_at(s: Seq<char>, pat: Seq<char>, i: int) -> bool {
    &&& 0 <= i
    &&& i + pat.len() <= s.len()
    &&& s.subrange(i, i + pat.len()) == pat
}

/// Whether `pat` occurs anywhere in `s`.
pub open spec fn contains_seq(s: Seq<char>, pat: Seq<char>) -> bool {
    exists|i: int| occurs_at(s, pat, i)
}

/// Whether two string slices hold the same characters.
pub fn eq_str(a: &str, b: &str) -> (r: bool)
    ensures
        r == (a@ == b@),
{
    let alen = a.unicode_len();
    let blen = b.unicode_len();
    if alen != blen {
        assert(a@ != b@) by {
            assert(a@.len() != b@.len());
        }
        return false;
    }
    let mut i: usize = 0;
    while i < alen
        invariant
            alen == a@.len(),
            alen == b@.len(),
            0 <= i <= alen,
            forall|j: int| 0 <= j < i ==> a@[j] == b@[j],
        decreases alen - i,
    {
        if a.get_char(i) != b.get_char(i) {
            return false;
        }
        i += 1;
    }
    proof {
        assert(a@ =~= b@);
    }
    true
}

/// Whether `s` contains `pat` as a substring, decided by direct scan.
pub fn contains_str(s: &str, pat: &str) -> (r: bool)
    ensures
        r == contains_seq(s@, pat@),
{
    let slen = s.unicode_len();
    let plen = pat.unicode_len();
    if plen > slen {
        assert(!contains_seq(s@, pat@)) by {
            assert(forall|i: int| !occurs_at(s@, pat@, i));
        }
        return false;
    }
    if plen == 0 {
        proof {
            assert(s@.subrange(0, 0) =~= pat@);
            assert(occurs_at(s@, pat@, 0));
        }
        return true;
    }
    let mut i: usize = 0;
    while i <= slen - plen
        invariant
            slen == s@.len(),
            plen == pat@.len(),
            0 < plen <= slen,
            0 <= i <= slen - plen + 1,
            forall|k: int| 0 <= k < i ==> !occurs_at(s@, pat@, k),
        decreases slen - plen + 1 - i,
    {
        let mut j: usize = 0;
        let mut all_match = true;
        while j < plen && all_match
            invariant
                slen == s@.len(),
                plen == pat@.len(),
                0 <= i <= slen - plen,
                0 <= j <= plen,
                all_match ==> forall|m: int| 0 <= m < j ==> s@[i + m] == pat@[m],
                !all_match ==> !occurs_at(s@, pat@, i as int),
            decreases plen - j + (if all_match { 1int } else { 0int }),
        {
            if s.get_char(i + j) != pat.get_char(j) {
                all_match = false;
                proof {
                    assert(s@.subrange(i as int, i + plen)[j as int] != pat@[j as int]);
                }
                assert(!occurs_at(s@, pat@, i as int));
            } else {
                j += 1;
            }
        }
        if all_match && j == plen {
            proof {
                assert(s@.subrange(i as int, i + plen) =~= pat@);
            }
            assert(occurs_at(s@, pat@, i as int));
            return true;
        }
        i += 1;
    }
    proof {
        assert forall|k: int| !occurs_at(s@, pat@, k) by {
            if 0 <= k <= slen - plen {
                assert(!occurs_at(s@, pat@, k));
            }
        }
    }
    false
}

/// Whether `s` starts with `pat`.
pub open spec fn starts_with(s: Seq<char>, pat: Seq<char>) -> bool {
    occurs_at(s, pat, 0)
}

/// Decide whether `s` starts with `pat`, by direct scan.
pub fn starts_with_str(s: &str, pat: &str) -> (r: bool)
    ensures
        r == starts_with(s@, pat@),
{
    let slen = s.unicode_len();
    let plen = pat.unicode_len();
    if plen > slen {
        return false;
    }
    let mut j: usize = 0;
    while j < plen
        invariant
            slen == s@.len(),
            plen == pat@.len(),
            plen <= slen,
            0 <= j <= plen,
            forall|m: int| 0 <= m < j ==> s@[m] == pat@[m],
        decreases plen - j,
    {
        if s.get_char(j) != pat.get_char(j) {
            proof {
                assert(s@.subrange(0, plen as int)[j as int] != pat@[j as int]);
            }
            return false;
        }
        j += 1;
    }
    proof {
        assert(s@.subrange(0, plen as int) =~= pat@);
    }
    true
}

} // verus!
