//! Association lists keyed by `u32`, the backing store for the topic map and
//! each topic's subscriber set. A list is well formed when no key repeats;
//! lookups scan from the front, so on a well-formed list they behave like a
//! finite map.

use vstd::prelude::*;

verus! {

/// The value bound to `k`, scanning entries from the front.
pub open spec fn alist_lookup<V>(s: Seq<(u32, V)>, k: u32) -> Option<V>
    decreases s.len(),
{
    if s.len() == 0 {
        None
    } else if s[0].0 == k {
        Some(s[0].1)
    } else {
        alist_lookup(s.drop_first(), k)
    }
}

pub open spec fn alist_has<V>(s: Seq<(u32, V)>, k: u32) -> bool {
    alist_lookup(s, k) is Some
}

/// No key occurs twice.
pub open spec fn alist_wf<V>(s: Seq<(u32, V)>) -> bool {
    forall|i: int, j: int| 0 <= i < j < s.len() ==> s[i].0 != s[j].0
}

pub proof fn lemma_lookup_at_index<V>(s: Seq<(u32, V)>, i: int)
    requires
        alist_wf(s),
        0 <= i < s.len(),
    ensures
        alist_lookup(s, s[i].0) == Some(s[i].1),
    decreases s.len(),
{
    if i == 0 {
    } else {
        assert(s[0].0 != s[i].0);
        lemma_lookup_at_index(s.drop_first(), i - 1);
        assert(s.drop_first()[i - 1] == s[i]);
    }
}

pub proof fn lemma_lookup_some_index<V>(s: Seq<(u32, V)>, k: u32)
    requires
        alist_has(s, k),
    ensures
        exists|i: int|
            0 <= i < s.len() && s[i].0 == k && s[i].1 == alist_lookup(s, k)->Some_0,
    decreases s.len(),
{
    if s[0].0 == k {
        assert(s[0].0 == k && s[0].1 == alist_lookup(s, k)->Some_0);
    } else {
        lemma_lookup_some_index(s.drop_first(), k);
        let i = choose|i: int|
            0 <= i < s.drop_first().len() && s.drop_first()[i].0 == k && s.drop_first()[i].1
                == alist_lookup(s.drop_first(), k)->Some_0;
        assert(s[i + 1].0 == k && s[i + 1].1 == alist_lookup(s, k)->Some_0);
    }
}

pub proof fn lemma_lookup_none<V>(s: Seq<(u32, V)>, k: u32)
    requires
        forall|i: int| 0 <= i < s.len() ==> s[i].0 != k,
    ensures
        alist_lookup(s, k) is None,
    decreases s.len(),
{
    if s.len() > 0 {
        assert(forall|i: int|
            0 <= i < s.drop_first().len() ==> s.drop_first()[i] == s[i + 1]);
        lemma_lookup_none(s.drop_first(), k);
    }
}

pub proof fn lemma_lookup_push<V>(s: Seq<(u32, V)>, e: (u32, V), k: u32)
    ensures
        alist_lookup(s.push(e), k) == if alist_has(s, k) {
            alist_lookup(s, k)
        } else if k == e.0 {
            Some(e.1)
        } else {
            None::<V>
        },
    decreases s.len(),
{
    let sp = s.push(e);
    if s.len() == 0 {
        assert(sp[0] == e);
        assert(sp.drop_first() =~= Seq::<(u32, V)>::empty());
        assert(alist_lookup(sp.drop_first(), k) is None);
        if e.0 == k {
            assert(alist_lookup(sp, k) == Some(e.1));
        } else {
            assert(alist_lookup(sp, k) is None);
        }
        assert(alist_lookup(s, k) is None);
    } else {
        assert(sp[0] == s[0]);
        lemma_lookup_push(s.drop_first(), e, k);
        assert(sp.drop_first() =~= s.drop_first().push(e));
        if s[0].0 == k {
            assert(alist_lookup(sp, k) == Some(s[0].1));
            assert(alist_lookup(s, k) == Some(s[0].1));
        } else {
            assert(alist_lookup(sp, k) == alist_lookup(s.drop_first().push(e), k));
            assert(alist_lookup(s, k) == alist_lookup(s.drop_first(), k));
        }
    }
}

pub proof fn lemma_lookup_update<V>(s: Seq<(u32, V)>, i: int, e: (u32, V), k: u32)
    requires
        alist_wf(s),
        0 <= i < s.len(),
        e.0 == s[i].0,
    ensures
        alist_wf(s.update(i, e)),
        alist_lookup(s.update(i, e), e.0) == Some(e.1),
        k != e.0 ==> alist_lookup(s.update(i, e), k) == alist_lookup(s, k),
    decreases s.len(),
{
    let s2 = s.update(i, e);
    assert(alist_wf(s2));
    if i == 0 {
        assert(s2.drop_first() =~= s.drop_first());
    } else {
        assert(s2[0] == s[0]);
        assert(s2.drop_first() =~= s.drop_first().update(i - 1, e));
        lemma_lookup_update(s.drop_first(), i - 1, e, k);
    }
}

pub proof fn lemma_lookup_remove<V>(s: Seq<(u32, V)>, i: int, k: u32)
    requires
        alist_wf(s),
        0 <= i < s.len(),
    ensures
        alist_wf(s.remove(i)),
        alist_lookup(s.remove(i), s[i].0) is None,
        k != s[i].0 ==> alist_lookup(s.remove(i), k) == alist_lookup(s, k),
    decreases s.len(),
{
    let s2 = s.remove(i);
    assert(forall|a: int, b: int| 0 <= a < b < s2.len() ==> s2[a].0 != s2[b].0) by {
        assert(forall|a: int| 0 <= a < i ==> s2[a] == s[a]);
        assert(forall|a: int| i <= a < s2.len() ==> s2[a] == s[a + 1]);
    }
    if i == 0 {
        assert(s2 =~= s.drop_first());
        lemma_lookup_none(s.drop_first(), s[0].0);
    } else {
        assert(s2[0] == s[0]);
        assert(s2.drop_first() =~= s.drop_first().remove(i - 1));
        lemma_lookup_remove(s.drop_first(), i - 1, k);
    }
}

/// Index of the first entry with key `k`, if one is present.
pub fn alist_find<V>(v: &Vec<(u32, V)>, k: u32) -> (r: Option<usize>)
    ensures
        match r {
            Some(i) => i < v@.len() && v@[i as int].0 == k && alist_lookup(v@, k) == Some(
                v@[i as int].1,
            ) && forall|j: int| 0 <= j < i ==> v@[j].0 != k,
            None => alist_lookup(v@, k) is None,
        },
{
    let ghost s = v@;
    let mut i: usize = 0;
    while i < v.len()
        invariant
            0 <= i <= s.len(),
            v@ == s,
            forall|j: int| 0 <= j < i ==> s[j].0 != k,
        decreases s.len() - i,
    {
        if v[i].0 == k {
            proof {
                lemma_lookup_prefix_skip(s, k, i as int);
            }
            return Some(i);
        }
        i = i + 1;
    }
    proof {
        lemma_lookup_none(s, k);
    }
    None
}

proof fn lemma_lookup_prefix_skip<V>(s: Seq<(u32, V)>, k: u32, i: int)
    requires
        0 <= i < s.len(),
        s[i].0 == k,
        forall|j: int| 0 <= j < i ==> s[j].0 != k,
    ensures
        alist_lookup(s, k) == Some(s[i].1),
    decreases i,
{
    if i > 0 {
        assert(forall|j: int|
            0 <= j < i - 1 ==> s.drop_first()[j] == s[j + 1]);
        lemma_lookup_prefix_skip(s.drop_first(), k, i - 1);
    }
}

/// Bind `k` to `val`: overwrite the entry holding `k`, or append a new one.
pub fn alist_upsert<V>(v: &mut Vec<(u32, V)>, k: u32, val: V)
    requires
        alist_wf(old(v)@),
    ensures
        alist_wf(final(v)@),
        alist_lookup(final(v)@, k) == Some(val),
        forall|k2: u32| k2 != k ==> alist_lookup(final(v)@, k2) == alist_lookup(old(v)@, k2),
        final(v)@.len() == old(v)@.len() + (if alist_has(old(v)@, k) {
            0int
        } else {
            1int
        }),
{
    let ghost s = v@;
    match alist_find(v, k) {
        Some(i) => {
            v.set(i, (k, val));
            proof {
                lemma_lookup_update(s, i as int, (k, val), k);
                assert forall|k2: u32| k2 != k implies alist_lookup(v@, k2) == alist_lookup(
                    s,
                    k2,
                ) by {
                    lemma_lookup_update(s, i as int, (k, val), k2);
                }
            }
        },
        None => {
            v.push((k, val));
            proof {
                assert(v@ =~= s.push((k, val)));
                lemma_lookup_push(s, (k, val), k);
                assert forall|k2: u32| k2 != k implies alist_lookup(v@, k2) == alist_lookup(
                    s,
                    k2,
                ) by {
                    lemma_lookup_push(s, (k, val), k2);
                }
                assert forall|a: int, b: int|
                    0 <= a < b < v@.len() implies v@[a].0 != v@[b].0 by {
                    if b == v@.len() - 1 {
                        lemma_lookup_at_index(s, a);
                    }
                }
            }
        },
    }
}

/// Drop the entry holding `k`, if one is present; entries keep their order.
pub fn alist_remove_key<V>(v: &mut Vec<(u32, V)>, k: u32)
    requires
        alist_wf(old(v)@),
    ensures
        alist_wf(final(v)@),
        alist_lookup(final(v)@, k) is None,
        forall|k2: u32| k2 != k ==> alist_lookup(final(v)@, k2) == alist_lookup(old(v)@, k2),
{
    let ghost s = v@;
    match alist_find(v, k) {
        Some(i) => {
            let _ = v.remove(i);
            proof {
                lemma_lookup_remove(s, i as int, k);
                assert forall|k2: u32| k2 != k implies alist_lookup(v@, k2) == alist_lookup(
                    s,
                    k2,
                ) by {
                    lemma_lookup_remove(s, i as int, k2);
                }
            }
        },
        None => {},
    }
}

} // verus!
