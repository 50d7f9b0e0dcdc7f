//! Per-owner token sets, modelled as duplicate-free `Vec<String>` whose
//! mathematical content is a `Set<Seq<char>>`.
use vstd::prelude::*;

verus! {

/// The set of token ids a list denotes.
pub open spec fn ts_set_of(s: Seq<String>) -> Set<Seq<char>> {
    Set::new(|k: Seq<char>| exists|i: int| 0 <= i < s.len() && s[i]@ == k)
}

/// No token id occurs twice.
pub open spec fn ts_unique(s: Seq<String>) -> bool {
    forall|i: int, j: int| #![trigger s[i], s[j]] 0 <= i < j < s.len() ==> s[i]@ != s[j]@
}

pub proof fn lemma_ts_push(s: Seq<String>, k: String)
    ensures
        ts_set_of(s.push(k)) == ts_set_of(s).insert(k@),
{
    let t = s.push(k);
    assert forall|x: Seq<char>| ts_set_of(t).contains(x) implies ts_set_of(s).insert(k@).contains(
        x,
    ) by {
        let i = choose|i: int| 0 <= i < t.len() && t[i]@ == x;
        if i < s.len() {
            assert(s[i]@ == x);
        } else {
            assert(x == k@);
        }
    }
    assert forall|x: Seq<char>| ts_set_of(s).insert(k@).contains(x) implies ts_set_of(t).contains(
        x,
    ) by {
        if x == k@ {
            assert(t[s.len() as int]@ == x);
        } else {
            let i = choose|i: int| 0 <= i < s.len() && s[i]@ == x;
            assert(t[i]@ == x);
        }
    }
    assert(ts_set_of(s.push(k)) =~= ts_set_of(s).insert(k@));
}

pub proof fn lemma_ts_remove(s: Seq<String>, i: int)
    requires
        ts_unique(s),
        0 <= i < s.len(),
    ensures
        ts_set_of(s.remove(i)) == ts_set_of(s).remove(s[i]@),
        ts_unique(s.remove(i)),
{
    let t = s.remove(i);
    assert forall|x: int| 0 <= x < t.len() implies t[x] == (if x < i {
        s[x]
    } else {
        s[x + 1]
    }) by {}
    assert forall|a: int, b: int| 0 <= a < b < t.len() implies t[a]@ != t[b]@ by {
        let sa = if a < i { a } else { a + 1 };
        let sb = if b < i { b } else { b + 1 };
        assert(t[a] == s[sa]);
        assert(t[b] == s[sb]);
    }
    assert forall|x: Seq<char>| ts_set_of(t).contains(x) implies ts_set_of(s).remove(
        s[i]@,
    ).contains(x) by {
        let j = choose|j: int| 0 <= j < t.len() && t[j]@ == x;
        let sj = if j < i { j } else { j + 1 };
        assert(s[sj]@ == x);
        assert(sj != i);
        assert(x != s[i]@);
    }
    assert forall|x: Seq<char>| ts_set_of(s).remove(s[i]@).contains(x) implies ts_set_of(
        t,
    ).contains(x) by {
        let j = choose|j: int| 0 <= j < s.len() && s[j]@ == x;
        assert(j != i);
        if j < i {
            assert(t[j]@ == x);
        } else {
            assert(t[j - 1]@ == x);
        }
    }
    assert(ts_set_of(s.remove(i)) =~= ts_set_of(s).remove(s[i]@));
}

/// Index of token id `k` in the list, if present.
pub fn ts_find(v: &Vec<String>, k: &String) -> (r: Option<usize>)
    ensures
        match r {
            Some(i) => i < v@.len() && v@[i as int]@ == k@,
            None => forall|i: int| 0 <= i < v@.len() ==> v@[i]@ != k@,
        },
{
    let mut i: usize = 0;
    while i < v.len()
        invariant
            i <= v@.len(),
            forall|j: int| 0 <= j < i ==> v@[j]@ != k@,
        decreases v@.len() - i,
    {
        if v[i] == *k {
            return Some(i);
        }
        i = i + 1;
    }
    None
}

/// Add token id `k`; a no-op if it is already present.
pub fn ts_insert(v: &mut Vec<String>, k: String)
    requires
        ts_unique(old(v)@),
    ensures
        ts_unique(final(v)@),
        ts_set_of(final(v)@) == ts_set_of(old(v)@).insert(k@),
        final(v)@.len() >= 1,
        old(v)@.len() <= final(v)@.len() <= old(v)@.len() + 1,
        (final(v)@.len() == old(v)@.len() + 1) <==> !ts_set_of(old(v)@).contains(k@),
        !ts_set_of(old(v)@).contains(k@) ==> final(v)@ == old(v)@.push(k),
{
    let ghost s0 = v@;
    match ts_find(v, &k) {
        Some(i) => {
            proof {
                assert(s0[i as int]@ == k@);
                assert(ts_set_of(s0).contains(k@));
                assert(ts_set_of(s0).insert(k@) =~= ts_set_of(s0));
            }
        },
        None => {
            v.push(k);
            proof {
                lemma_ts_push(s0, k);
                if ts_set_of(s0).contains(k@) {
                    let j = choose|j: int| 0 <= j < s0.len() && s0[j]@ == k@;
                }
                assert forall|a: int, b: int| 0 <= a < b < v@.len() implies v@[a]@ != v@[b]@ by {
                    assert(v@[a] == s0[a]);
                    if b < v@.len() - 1 {
                        assert(v@[b] == s0[b]);
                    }
                }
            }
        },
    }
}

/// Remove token id `k`; returns whether it was present.
pub fn ts_remove(v: &mut Vec<String>, k: &String) -> (r: bool)
    requires
        ts_unique(old(v)@),
    ensures
        ts_unique(final(v)@),
        ts_set_of(final(v)@) == ts_set_of(old(v)@).remove(k@),
        r == ts_set_of(old(v)@).contains(k@),
        r ==> final(v)@.len() + 1 == old(v)@.len(),
        !r ==> final(v)@ == old(v)@,
{
    let ghost s0 = v@;
    match ts_find(v, k) {
        Some(i) => {
            proof {
                assert(s0[i as int]@ == k@);
                lemma_ts_remove(s0, i as int);
            }
            v.remove(i);
            true
        },
        None => {
            proof {
                if ts_set_of(s0).contains(k@) {
                    let j = choose|j: int| 0 <= j < s0.len() && s0[j]@ == k@;
                }
                assert(ts_set_of(s0).remove(k@) =~= ts_set_of(s0));
            }
            false
        },
    }
}

} // verus!
