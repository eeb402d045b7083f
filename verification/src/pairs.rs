//! Association lists keyed by text: `Vec<(String, V)>` viewed as a map.
use vstd::prelude::*;
use crate::text::str_eq;

verus! {

/// No key occurs twice.
pub open spec fn keys_distinct<V>(s: Seq<(String, V)>) -> bool {
    forall|i: int, j: int|
        0 <= i < s.len() && 0 <= j < s.len() && i != j ==> #[trigger] s[i].0@ != #[trigger] s[j].0@
}

/// The map an association list denotes (a later entry overrides an earlier one).
pub open spec fn pmap<V>(s: Seq<(String, V)>) -> Map<Seq<char>, V>
    decreases s.len(),
{
    if s.len() == 0 {
        Map::empty()
    } else {
        pmap(s.drop_last()).insert(s.last().0@, s.last().1)
    }
}

/// First position holding key `k`.
pub open spec fn first_key<V>(s: Seq<(String, V)>, k: Seq<char>) -> Option<int>
    decreases s.len(),
{
    if s.len() == 0 {
        None
    } else {
        match first_key(s.drop_last(), k) {
            Some(i) => Some(i),
            None => if s.last().0@ == k {
                Some(s.len() - 1)
            } else {
                None
            },
        }
    }
}

pub proof fn lemma_pmap_dom<V>(s: Seq<(String, V)>, k: Seq<char>)
    ensures
        pmap(s).dom().contains(k) <==> exists|i: int| 0 <= i < s.len() && #[trigger] s[i].0@ == k,
    decreases s.len(),
{
    if s.len() > 0 {
        lemma_pmap_dom(s.drop_last(), k);
        if pmap(s.drop_last()).dom().contains(k) {
            let i = choose|i: int| 0 <= i < s.drop_last().len() && #[trigger] s.drop_last()[i].0@ == k;
            assert(s[i].0@ == k);
        }
        if exists|i: int| 0 <= i < s.len() && #[trigger] s[i].0@ == k {
            let i = choose|i: int| 0 <= i < s.len() && #[trigger] s[i].0@ == k;
            if i < s.len() - 1 {
                assert(s.drop_last()[i].0@ == k);
            }
        }
    }
}

pub proof fn lemma_pmap_at<V>(s: Seq<(String, V)>, i: int)
    requires
        keys_distinct(s),
        0 <= i < s.len(),
    ensures
        pmap(s).dom().contains(s[i].0@),
        pmap(s)[s[i].0@] == s[i].1,
    decreases s.len(),
{
    if i < s.len() - 1 {
        let p = s.drop_last();
        assert(keys_distinct(p)) by {
            assert forall|a: int, b: int|
                0 <= a < p.len() && 0 <= b < p.len() && a != b implies #[trigger] p[a].0@
                != #[trigger] p[b].0@ by {
                assert(p[a] == s[a] && p[b] == s[b]);
            }
        }
        lemma_pmap_at(p, i);
        assert(s[i].0@ != s.last().0@);
    }
}

pub proof fn lemma_first_key<V>(s: Seq<(String, V)>, k: Seq<char>)
    ensures
        match first_key(s, k) {
            Some(i) => 0 <= i < s.len() && s[i].0@ == k && forall|j: int|
                0 <= j < i ==> #[trigger] s[j].0@ != k,
            None => forall|j: int| 0 <= j < s.len() ==> #[trigger] s[j].0@ != k,
        },
    decreases s.len(),
{
    if s.len() > 0 {
        lemma_first_key(s.drop_last(), k);
        let p = s.drop_last();
        match first_key(p, k) {
            Some(i) => {
                assert forall|j: int| 0 <= j < i implies #[trigger] s[j].0@ != k by {
                    assert(s[j] == p[j]);
                }
            },
            None => {
                assert forall|j: int| 0 <= j < s.len() - 1 implies #[trigger] s[j].0@ != k by {
                    assert(s[j] == p[j]);
                }
            },
        }
    }
}

/// Position of key `k` in the list.
pub fn find_key<V>(v: &Vec<(String, V)>, k: &str) -> (r: Option<usize>)
    ensures
        r matches Some(i) ==> first_key(v@, k@) == Some(i as int) && i < v.len() && v@[i as int].0@
            == k@,
        r is None ==> first_key(v@, k@) is None,
{
    let mut i: usize = 0;
    while i < v.len()
        invariant
            i <= v.len(),
            forall|j: int| 0 <= j < i ==> #[trigger] v@[j].0@ != k@,
        decreases v.len() - i,
    {
        if str_eq(v[i].0.as_str(), k) {
            proof {
                lemma_first_key(v@, k@);
                match first_key(v@, k@) {
                    Some(f) => {
                        if f > i {
                            assert(v@[i as int].0@ == k@);
                        }
                    },
                    None => {
                        assert(v@[i as int].0@ == k@);
                    },
                }
            }
            return Some(i);
        }
        i += 1;
    }
    proof {
        lemma_first_key(v@, k@);
        if let Some(f) = first_key(v@, k@) {
            assert(v@[f].0@ != k@);
        }
    }
    None
}

/// With distinct keys, the first position of a key holds the map's value.
pub proof fn lemma_lookup<V>(s: Seq<(String, V)>, k: Seq<char>)
    requires
        keys_distinct(s),
    ensures
        match first_key(s, k) {
            Some(i) => pmap(s).dom().contains(k) && pmap(s)[k] == s[i].1,
            None => !pmap(s).dom().contains(k),
        },
{
    lemma_first_key(s, k);
    lemma_pmap_dom(s, k);
    if let Some(i) = first_key(s, k) {
        lemma_pmap_at(s, i);
    }
}

/// Appending an entry with a new key keeps keys distinct and inserts into the map.
pub proof fn lemma_push_new<V>(s: Seq<(String, V)>, e: (String, V))
    requires
        keys_distinct(s),
        !pmap(s).dom().contains(e.0@),
    ensures
        keys_distinct(s.push(e)),
        pmap(s.push(e)) == pmap(s).insert(e.0@, e.1),
{
    lemma_pmap_dom(s, e.0@);
    let t = s.push(e);
    assert(t.drop_last() =~= s);
    assert forall|i: int, j: int|
        0 <= i < t.len() && 0 <= j < t.len() && i != j implies #[trigger] t[i].0@
        != #[trigger] t[j].0@ by {
        if i < s.len() && j < s.len() {
            assert(t[i] == s[i] && t[j] == s[j]);
        } else if i < s.len() {
            assert(t[i] == s[i]);
        } else {
            assert(t[j] == s[j]);
        }
    }
}

/// Removing the entry at `i` keeps keys distinct and removes its key from the map.
pub proof fn lemma_remove_at<V>(s: Seq<(String, V)>, i: int)
    requires
        keys_distinct(s),
        0 <= i < s.len(),
    ensures
        keys_distinct(s.remove(i)),
        pmap(s.remove(i)) == pmap(s).remove(s[i].0@),
{
    let t = s.remove(i);
    assert forall|a: int, b: int|
        0 <= a < t.len() && 0 <= b < t.len() && a != b implies #[trigger] t[a].0@
        != #[trigger] t[b].0@ by {
        let a2 = if a < i { a } else { a + 1 };
        let b2 = if b < i { b } else { b + 1 };
        assert(t[a] == s[a2] && t[b] == s[b2]);
    }
    let k = s[i].0@;
    assert forall|key: Seq<char>| #[trigger] pmap(t).dom().contains(key) <==> pmap(
        s,
    ).remove(k).dom().contains(key) by {
        lemma_pmap_dom(t, key);
        lemma_pmap_dom(s, key);
        if pmap(t).dom().contains(key) {
            let a = choose|a: int| 0 <= a < t.len() && #[trigger] t[a].0@ == key;
            let a2 = if a < i { a } else { a + 1 };
            assert(t[a] == s[a2]);
            assert(s[a2].0@ == key);
        }
        if pmap(s).remove(k).dom().contains(key) {
            let a = choose|a: int| 0 <= a < s.len() && #[trigger] s[a].0@ == key;
            assert(a != i);
            let a2 = if a < i { a } else { a - 1 };
            assert(t[a2] == s[a]);
        }
    }
    assert forall|key: Seq<char>| #[trigger] pmap(t).dom().contains(key) implies pmap(t)[key]
        == pmap(s).remove(k)[key] by {
        lemma_pmap_dom(t, key);
        let a = choose|a: int| 0 <= a < t.len() && #[trigger] t[a].0@ == key;
        let a2 = if a < i { a } else { a + 1 };
        assert(t[a] == s[a2]);
        lemma_pmap_at(t, a);
        lemma_pmap_at(s, a2);
    }
    assert(pmap(t) =~= pmap(s).remove(k));
}


/// Replacing the value at `i` keeps keys distinct and updates that key in the map.
pub proof fn lemma_update_at<V>(s: Seq<(String, V)>, i: int, v: V)
    requires
        keys_distinct(s),
        0 <= i < s.len(),
    ensures
        keys_distinct(s.update(i, (s[i].0, v))),
        pmap(s.update(i, (s[i].0, v))) == pmap(s).insert(s[i].0@, v),
{
    let t = s.update(i, (s[i].0, v));
    assert forall|a: int, b: int|
        0 <= a < t.len() && 0 <= b < t.len() && a != b implies #[trigger] t[a].0@
        != #[trigger] t[b].0@ by {
        assert(t[a].0 == s[a].0 && t[b].0 == s[b].0);
    }
    let k = s[i].0@;
    assert forall|key: Seq<char>| #[trigger] pmap(t).dom().contains(key) <==> pmap(s).insert(
        k,
        v,
    ).dom().contains(key) by {
        lemma_pmap_dom(t, key);
        lemma_pmap_dom(s, key);
        if pmap(s).dom().contains(key) {
            let a = choose|a: int| 0 <= a < s.len() && #[trigger] s[a].0@ == key;
            assert(t[a].0@ == key);
        }
        if pmap(t).dom().contains(key) {
            let a = choose|a: int| 0 <= a < t.len() && #[trigger] t[a].0@ == key;
            assert(s[a].0@ == key);
        }
    }
    assert forall|key: Seq<char>| #[trigger] pmap(t).dom().contains(key) implies pmap(t)[key]
        == pmap(s).insert(k, v)[key] by {
        lemma_pmap_dom(t, key);
        let a = choose|a: int| 0 <= a < t.len() && #[trigger] t[a].0@ == key;
        lemma_pmap_at(t, a);
        if a != i {
            lemma_pmap_at(s, a);
        }
    }
    assert(pmap(t) =~= pmap(s).insert(k, v));
}

/// Sets the value of key `k`, replacing an existing entry or appending a new one.
pub fn put<V>(v: &mut Vec<(String, V)>, k: String, val: V)
    requires
        keys_distinct(old(v)@),
    ensures
        keys_distinct(final(v)@),
        pmap(final(v)@) == pmap(old(v)@).insert(k@, val),
{
    proof {
        lemma_lookup(v@, k@);
    }
    match find_key(v, k.as_str()) {
        Some(i) => {
            proof {
                lemma_update_at(v@, i as int, val);
            }
            let key = v[i].0.clone();
            assert(key == v@[i as int].0);
            v.set(i, (key, val));
        },
        None => {
            proof {
                lemma_push_new(v@, (k, val));
            }
            v.push((k, val));
        },
    }
}

/// The value stored under the first entry with key `k`.
pub fn value_of<'a, V>(v: &'a Vec<(String, V)>, k: &str) -> (r: Option<&'a V>)
    ensures
        match first_key(v@, k@) {
            Some(i) => r == Some(&v@[i].1),
            None => r is None,
        },
{
    match find_key(v, k) {
        Some(i) => Some(&v[i].1),
        None => None,
    }
}

/// The keys of the list, in order.
pub fn keys_of<V>(v: &Vec<(String, V)>) -> (r: Vec<String>)
    ensures
        r@.len() == v@.len(),
        forall|i: int| 0 <= i < v@.len() ==> #[trigger] r@[i]@ == v@[i].0@,
{
    let mut r: Vec<String> = Vec::new();
    let mut i: usize = 0;
    while i < v.len()
        invariant
            i <= v.len(),
            r@.len() == i,
            forall|j: int| 0 <= j < i ==> #[trigger] r@[j]@ == v@[j].0@,
        decreases v.len() - i,
    {
        r.push(v[i].0.clone());
        i += 1;
    }
    r
}
} // verus!
