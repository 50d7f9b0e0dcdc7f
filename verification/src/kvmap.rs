//! Keyed collections backing the ledger, modelled as association lists.
//!
//! A collection is a `Vec<(String, V)>` whose keys are pairwise distinct; its
//! mathematical content is a `Map<Seq<char>, V>`. All ledger contracts speak
//! of that map.
use vstd::prelude::*;

verus! {

/// The map an association list denotes; a later entry overrides an earlier
/// one with the same key.
pub open spec fn kv_map_of<V>(s: Seq<(String, V)>) -> Map<Seq<char>, V>
    decreases s.len(),
{
    if s.len() == 0 {
        Map::empty()
    } else {
        kv_map_of(s.drop_last()).insert(s.last().0@, s.last().1)
    }
}

/// No two entries share a key.
pub open spec fn kv_unique<V>(s: Seq<(String, V)>) -> bool {
    forall|i: int, j: int| #![trigger s[i].0, s[j].0] 0 <= i < j < s.len() ==> s[i].0@ != s[j].0@
}

pub proof fn lemma_kv_contains<V>(s: Seq<(String, V)>, k: Seq<char>)
    ensures
        kv_map_of(s).contains_key(k) <==> exists|i: int| 0 <= i < s.len() && s[i].0@ == k,
    decreases s.len(),
{
    if s.len() > 0 {
        lemma_kv_contains(s.drop_last(), k);
        if s.last().0@ == k {
            assert(s[s.len() - 1].0@ == k);
        } else {
            if kv_map_of(s).contains_key(k) {
                let i = choose|i: int| 0 <= i < s.drop_last().len() && s.drop_last()[i].0@ == k;
                assert(s[i].0@ == k);
            }
            if exists|i: int| 0 <= i < s.len() && s[i].0@ == k {
                let i = choose|i: int| 0 <= i < s.len() && s[i].0@ == k;
                assert(s.drop_last()[i].0@ == k);
            }
        }
    }
}

pub proof fn lemma_kv_index<V>(s: Seq<(String, V)>, i: int)
    requires
        kv_unique(s),
        0 <= i < s.len(),
    ensures
        kv_map_of(s).contains_key(s[i].0@),
        kv_map_of(s)[s[i].0@] == s[i].1,
    decreases s.len(),
{
    if i < s.len() - 1 {
        assert(kv_unique(s.drop_last()));
        lemma_kv_index(s.drop_last(), i);
        assert(s.drop_last()[i] == s[i]);
        assert(s[i].0@ != s.last().0@);
    }
}

pub proof fn lemma_kv_push<V>(s: Seq<(String, V)>, p: (String, V))
    ensures
        kv_map_of(s.push(p)) == kv_map_of(s).insert(p.0@, p.1),
{
    assert(s.push(p).drop_last() =~= s);
    assert(s.push(p).last() == p);
}

pub proof fn lemma_kv_update<V>(s: Seq<(String, V)>, i: int, p: (String, V))
    requires
        kv_unique(s),
        0 <= i < s.len(),
        p.0@ == s[i].0@,
    ensures
        kv_map_of(s.update(i, p)) == kv_map_of(s).insert(p.0@, p.1),
        kv_unique(s.update(i, p)),
    decreases s.len(),
{
    let t = s.update(i, p);
    assert forall|x: int| 0 <= x < t.len() implies t[x].0@ == s[x].0@ by {
        if x != i {
            assert(t[x] == s[x]);
        }
    }
    if i == s.len() - 1 {
        assert(t.drop_last() =~= s.drop_last());
        assert(t.last() == p);
    } else {
        assert(kv_unique(s.drop_last()));
        lemma_kv_update(s.drop_last(), i, p);
        assert(t.drop_last() =~= s.drop_last().update(i, p));
        assert(t.last() == s.last());
        assert(p.0@ != s.last().0@);
        assert(kv_map_of(s.drop_last()).insert(p.0@, p.1).insert(s.last().0@, s.last().1) =~= (
        kv_map_of(s.drop_last()).insert(s.last().0@, s.last().1).insert(p.0@, p.1)));
    }
}

pub proof fn lemma_kv_remove<V>(s: Seq<(String, V)>, i: int)
    requires
        kv_unique(s),
        0 <= i < s.len(),
    ensures
        kv_map_of(s.remove(i)) == kv_map_of(s).remove(s[i].0@),
        kv_unique(s.remove(i)),
    decreases s.len(),
{
    let t = s.remove(i);
    assert forall|x: int| 0 <= x < t.len() implies t[x] == (if x < i {
        s[x]
    } else {
        s[x + 1]
    }) by {}
    assert forall|a: int, b: int| 0 <= a < b < t.len() implies t[a].0@ != t[b].0@ by {
        let sa = if a < i { a } else { a + 1 };
        let sb = if b < i { b } else { b + 1 };
        assert(t[a] == s[sa]);
        assert(t[b] == s[sb]);
    }
    if i == s.len() - 1 {
        assert(t =~= s.drop_last());
        lemma_kv_contains(t, s[i].0@);
        assert forall|j: int| 0 <= j < t.len() implies t[j].0@ != s[i].0@ by {
            assert(t[j] == s[j]);
        }
        assert(!kv_map_of(t).contains_key(s[i].0@));
        assert(kv_map_of(t).insert(s[i].0@, s[i].1).remove(s[i].0@) =~= kv_map_of(t));
        assert(kv_map_of(s) == kv_map_of(t).insert(s[i].0@, s[i].1));
    } else {
        assert(kv_unique(s.drop_last()));
        lemma_kv_remove(s.drop_last(), i);
        assert(t.drop_last() =~= s.drop_last().remove(i));
        assert(t.last() == s.last());
        assert(s[i].0@ != s.last().0@);
        assert(s.drop_last()[i] == s[i]);
        assert(kv_map_of(s.drop_last()).remove(s[i].0@).insert(s.last().0@, s.last().1) =~= (
        kv_map_of(s.drop_last()).insert(s.last().0@, s.last().1).remove(s[i].0@)));
    }
}

/// Index of the entry holding key `k`, if any.
pub fn kv_find<V>(v: &Vec<(String, V)>, k: &String) -> (r: Option<usize>)
    ensures
        match r {
            Some(i) => i < v@.len() && v@[i as int].0@ == k@,
            None => forall|i: int| 0 <= i < v@.len() ==> v@[i].0@ != k@,
        },
{
    let mut i: usize = 0;
    while i < v.len()
        invariant
            i <= v@.len(),
            forall|j: int| 0 <= j < i ==> v@[j].0@ != k@,
        decreases v@.len() - i,
    {
        if v[i].0 == *k {
            return Some(i);
        }
        i = i + 1;
    }
    None
}

/// Pure lookup: the value stored under `k`, if any.
pub fn kv_get<'a, V>(v: &'a Vec<(String, V)>, k: &String) -> (r: Option<&'a V>)
    requires
        kv_unique(v@),
    ensures
        match r {
            Some(val) => kv_map_of(v@).contains_key(k@) && *val == kv_map_of(v@)[k@],
            None => !kv_map_of(v@).contains_key(k@),
        },
{
    match kv_find(v, k) {
        Some(i) => {
            proof {
                lemma_kv_index(v@, i as int);
            }
            Some(&v[i].1)
        },
        None => {
            proof {
                lemma_kv_contains(v@, k@);
            }
            None
        },
    }
}

/// Store `val` under `k`, replacing any previous value.
pub fn kv_insert<V>(v: &mut Vec<(String, V)>, k: String, val: V)
    requires
        kv_unique(old(v)@),
    ensures
        kv_unique(final(v)@),
        kv_map_of(final(v)@) == kv_map_of(old(v)@).insert(k@, val),
        old(v)@.len() <= final(v)@.len() <= old(v)@.len() + 1,
        (final(v)@.len() == old(v)@.len() + 1) <==> !kv_map_of(old(v)@).contains_key(k@),
        !kv_map_of(old(v)@).contains_key(k@) ==> final(v)@ == old(v)@.push((k, val)),
{
    let ghost s0 = v@;
    proof {
        lemma_kv_contains(s0, k@);
    }
    match kv_find(v, &k) {
        Some(i) => {
            proof {
                lemma_kv_update(s0, i as int, (k, val));
            }
            v[i] = (k, val);
        },
        None => {
            v.push((k, val));
            proof {
                lemma_kv_push(s0, (k, val));
                assert forall|a: int, b: int|
                    0 <= a < b < v@.len() implies v@[a].0@ != v@[b].0@ by {
                    if b == v@.len() - 1 {
                        assert(v@[a] == s0[a]);
                    } else {
                        assert(v@[a] == s0[a]);
                        assert(v@[b] == s0[b]);
                    }
                }
            }
        },
    }
}

/// Delete the entry under `k`; return its value if it was present.
pub fn kv_remove<V>(v: &mut Vec<(String, V)>, k: &String) -> (r: Option<V>)
    requires
        kv_unique(old(v)@),
    ensures
        kv_unique(final(v)@),
        kv_map_of(final(v)@) == kv_map_of(old(v)@).remove(k@),
        match r {
            Some(val) => kv_map_of(old(v)@).contains_key(k@) && val == kv_map_of(old(v)@)[k@]
                && final(v)@.len() + 1 == old(v)@.len() && (exists|i: int|
                0 <= i < old(v)@.len() && old(v)@[i].0@ == k@ && old(v)@[i].1 == val
                    && final(v)@ == old(v)@.remove(i)),
            None => !kv_map_of(old(v)@).contains_key(k@) && final(v)@ == old(v)@,
        },
{
    let ghost s0 = v@;
    proof {
        lemma_kv_contains(s0, k@);
    }
    match kv_find(v, k) {
        Some(i) => {
            proof {
                lemma_kv_index(s0, i as int);
                lemma_kv_remove(s0, i as int);
            }
            let p = v.remove(i);
            Some(p.1)
        },
        None => {
            proof {
                assert(kv_map_of(s0).remove(k@) =~= kv_map_of(s0));
            }
            None
        },
    }
}

} // verus!
