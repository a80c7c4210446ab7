use vstd::prelude::*;

use crate::models::message::{lemma_views_push, lemma_views_update, views_of};

verus! {

/// Values that are found again by a string key (an episode by its id, a node by its id).
pub trait Keyed: View + Sized {
    /// The key of a value, as a function of its view.
    spec fn key_view(v: Self::V) -> Seq<char>;

    /// The key of this value.
    fn key(&self) -> (k: &str)
        ensures
            k@ == Self::key_view(self@);
}

/// The index of the first element whose key is `k`, or -1 when there is none.
pub open spec fn key_index<T: Keyed>(s: Seq<T::V>, k: Seq<char>) -> int
    decreases s.len(),
{
    if s.len() == 0 {
        -1
    } else if T::key_view(s[0]) == k {
        0
    } else {
        let r = key_index::<T>(s.drop_first(), k);
        if r < 0 {
            -1
        } else {
            r + 1
        }
    }
}

/// What `key_index` finds: the first element with the key, or no element at all.
pub proof fn lemma_key_index<T: Keyed>(s: Seq<T::V>, k: Seq<char>)
    ensures
        -1 <= key_index::<T>(s, k) < s.len(),
        key_index::<T>(s, k) == -1 ==> forall|j: int| 0 <= j < s.len() ==> T::key_view(#[trigger] s[j]) != k,
        key_index::<T>(s, k) >= 0 ==> T::key_view(s[key_index::<T>(s, k)]) == k,
        key_index::<T>(s, k) >= 0 ==> forall|j: int|
            0 <= j < key_index::<T>(s, k) ==> T::key_view(#[trigger] s[j]) != k,
    decreases s.len(),
{
    if s.len() > 0 && T::key_view(s[0]) != k {
        let d = s.drop_first();
        lemma_key_index::<T>(d, k);
        let r = key_index::<T>(d, k);
        if r < 0 {
            assert forall|j: int| 0 <= j < s.len() implies T::key_view(#[trigger] s[j]) != k by {
                if j > 0 {
                    assert(s[j] == d[j - 1]);
                }
            }
        } else {
            assert(s[r + 1] == d[r]);
            assert forall|j: int| 0 <= j < r + 1 implies T::key_view(#[trigger] s[j]) != k by {
                if j > 0 {
                    assert(s[j] == d[j - 1]);
                }
            }
        }
    }
}

/// `key_index` is determined by where the key first occurs.
pub proof fn lemma_key_index_at<T: Keyed>(s: Seq<T::V>, k: Seq<char>, i: int)
    requires
        -1 <= i < s.len(),
        i >= 0 ==> T::key_view(s[i]) == k,
        forall|j: int| 0 <= j < s.len() && (i < 0 || j < i) ==> T::key_view(#[trigger] s[j]) != k,
    ensures
        key_index::<T>(s, k) == i,
{
    lemma_key_index::<T>(s, k);
}

/// Appending an element keeps every key that was already present where it was, and a new
/// key is found at the end.
pub proof fn lemma_key_index_push<T: Keyed>(s: Seq<T::V>, x: T::V, k: Seq<char>)
    ensures
        key_index::<T>(s, k) >= 0 ==> key_index::<T>(s.push(x), k) == key_index::<T>(s, k),
        key_index::<T>(s, k) < 0 && T::key_view(x) == k ==> key_index::<T>(s.push(x), k) == s.len(),
        key_index::<T>(s, k) < 0 && T::key_view(x) != k ==> key_index::<T>(s.push(x), k) == -1,
{
    lemma_key_index::<T>(s, k);
    let t = s.push(x);
    let i = key_index::<T>(s, k);
    if i >= 0 {
        assert(t[i] == s[i]);
        lemma_key_index_at::<T>(t, k, i);
    } else if T::key_view(x) == k {
        lemma_key_index_at::<T>(t, k, s.len() as int);
    } else {
        assert forall|j: int| 0 <= j < t.len() implies T::key_view(#[trigger] t[j]) != k by {
            if j < s.len() {
                assert(t[j] == s[j]);
            }
        }
        lemma_key_index_at::<T>(t, k, -1);
    }
}

/// Replacing an element by one with the same key keeps every key where it was.
pub proof fn lemma_key_index_update<T: Keyed>(s: Seq<T::V>, i: int, x: T::V, k: Seq<char>)
    requires
        0 <= i < s.len(),
        T::key_view(x) == T::key_view(s[i]),
    ensures
        key_index::<T>(s.update(i, x), k) == key_index::<T>(s, k),
{
    lemma_key_index::<T>(s, k);
    let t = s.update(i, x);
    let r = key_index::<T>(s, k);
    assert forall|j: int| 0 <= j < s.len() implies T::key_view(#[trigger] t[j]) == T::key_view(s[j]) by {}
    lemma_key_index_at::<T>(t, k, r);
}

/// No two elements share a key.
pub open spec fn keys_unique<T: Keyed>(s: Seq<T::V>) -> bool {
    forall|i: int, j: int|
        0 <= i < s.len() && 0 <= j < s.len() && i != j ==> T::key_view(#[trigger] s[i]) != T::key_view(
            #[trigger] s[j],
        )
}

/// `s` with `x` stored under its key: replacing the element with that key, or added last.
pub open spec fn upserted<T: Keyed>(s: Seq<T::V>, x: T::V) -> Seq<T::V> {
    if key_index::<T>(s, T::key_view(x)) >= 0 {
        s.update(key_index::<T>(s, T::key_view(x)), x)
    } else {
        s.push(x)
    }
}

/// `s` without the element with key `k`, if there is one.
pub open spec fn removed<T: Keyed>(s: Seq<T::V>, k: Seq<char>) -> Seq<T::V> {
    if key_index::<T>(s, k) >= 0 {
        s.remove(key_index::<T>(s, k))
    } else {
        s
    }
}

/// Storing a value keeps keys unique, and the value is then found under its key.
pub proof fn lemma_upserted<T: Keyed>(s: Seq<T::V>, x: T::V)
    ensures
        keys_unique::<T>(s) ==> keys_unique::<T>(upserted::<T>(s, x)),
        key_index::<T>(upserted::<T>(s, x), T::key_view(x)) >= 0,
        upserted::<T>(s, x)[key_index::<T>(upserted::<T>(s, x), T::key_view(x))] == x,
{
    let k = T::key_view(x);
    lemma_key_index::<T>(s, k);
    let t = upserted::<T>(s, x);
    if key_index::<T>(s, k) >= 0 {
        let i = key_index::<T>(s, k);
        lemma_key_index_update::<T>(s, i, x, k);
    } else {
        lemma_key_index_push::<T>(s, x, k);
    }
    if keys_unique::<T>(s) {
        assert forall|a: int, b: int|
            0 <= a < t.len() && 0 <= b < t.len() && a != b implies T::key_view(#[trigger] t[a])
            != T::key_view(#[trigger] t[b]) by {
            if key_index::<T>(s, k) < 0 {
                if a == s.len() {
                    assert(t[b] == s[b]);
                } else if b == s.len() {
                    assert(t[a] == s[a]);
                } else {
                    assert(t[a] == s[a] && t[b] == s[b]);
                }
            }
        }
    }
}

/// Storing a value leaves what is found under every other key as it was.
pub proof fn lemma_upserted_other<T: Keyed>(s: Seq<T::V>, x: T::V, k: Seq<char>)
    requires
        k != T::key_view(x),
    ensures
        key_index::<T>(upserted::<T>(s, x), k) == key_index::<T>(s, k),
        key_index::<T>(s, k) >= 0 ==> upserted::<T>(s, x)[key_index::<T>(s, k)] == s[key_index::<T>(s, k)],
{
    let kx = T::key_view(x);
    lemma_key_index::<T>(s, kx);
    lemma_key_index::<T>(s, k);
    if key_index::<T>(s, kx) >= 0 {
        lemma_key_index_update::<T>(s, key_index::<T>(s, kx), x, k);
    } else {
        lemma_key_index_push::<T>(s, x, k);
    }
}

/// Removing the value with key `k` from a sequence with unique keys leaves no value with that key.
pub proof fn lemma_removed<T: Keyed>(s: Seq<T::V>, k: Seq<char>)
    requires
        keys_unique::<T>(s),
    ensures
        keys_unique::<T>(removed::<T>(s, k)),
        key_index::<T>(removed::<T>(s, k), k) == -1,
{
    lemma_key_index::<T>(s, k);
    let t = removed::<T>(s, k);
    if key_index::<T>(s, k) >= 0 {
        let i = key_index::<T>(s, k);
        assert forall|j: int| 0 <= j < t.len() implies T::key_view(#[trigger] t[j]) != k by {
            if j < i {
                assert(t[j] == s[j]);
            } else {
                assert(t[j] == s[j + 1]);
            }
        }
        assert forall|a: int, b: int|
            0 <= a < t.len() && 0 <= b < t.len() && a != b implies T::key_view(#[trigger] t[a])
            != T::key_view(#[trigger] t[b]) by {
            let a2 = if a < i { a } else { a + 1 };
            let b2 = if b < i { b } else { b + 1 };
            assert(t[a] == s[a2] && t[b] == s[b2]);
        }
    }
    lemma_key_index_at::<T>(t, k, -1);
}

/// Stores `x` under its key: replaces the element with the same key, or appends `x`.
pub fn upsert_by_key<T: Keyed>(v: &mut Vec<T>, x: T)
    ensures
        views_of(final(v)@) == upserted::<T>(views_of(old(v)@), x@),
{
    match find_by_key(v, x.key()) {
        Some(i) => {
            proof {
                lemma_views_update(v@, i as int, x);
            }
            v.set(i, x);
        },
        None => {
            proof {
                lemma_views_push(v@, x);
            }
            v.push(x);
        },
    }
}

/// Removes and returns the first element with key `k`.
pub fn remove_by_key<T: Keyed>(v: &mut Vec<T>, k: &str) -> (r: Option<T>)
    ensures
        views_of(final(v)@) == removed::<T>(views_of(old(v)@), k@),
        match r {
            Some(x) => key_index::<T>(views_of(old(v)@), k@) >= 0 && x@ == views_of(old(v)@)[key_index::<T>(views_of(old(v)@), k@)],
            None => key_index::<T>(views_of(old(v)@), k@) == -1,
        },
{
    match find_by_key(v, k) {
        Some(i) => {
            let ghost before = v@;
            let x = v.remove(i);
            assert(views_of(v@) =~= views_of(before).remove(i as int));
            Some(x)
        },
        None => None,
    }
}

/// Finds the first element with key `k`.
pub fn find_by_key<T: Keyed>(v: &Vec<T>, k: &str) -> (r: Option<usize>)
    ensures
        match r {
            Some(i) => i as int == key_index::<T>(views_of(v@), k@) && i < v.len(),
            None => key_index::<T>(views_of(v@), k@) == -1,
        },
{
    let ghost s = views_of(v@);
    let mut i: usize = 0;
    while i < v.len()
        invariant
            i <= v.len(),
            s == views_of(v@),
            s.len() == v.len(),
            forall|j: int| 0 <= j < i ==> T::key_view(#[trigger] s[j]) != k@,
        decreases v.len() - i,
    {
        let key = v[i].key();
        if str_eq(key, k) {
            proof {
                lemma_key_index_at::<T>(s, k@, i as int);
            }
            return Some(i);
        }
        i = i + 1;
    }
    proof {
        lemma_key_index_at::<T>(s, k@, -1);
    }
    None
}

/// Whether two string slices hold the same characters.
pub fn str_eq(a: &str, b: &str) -> (r: bool)
    ensures
        r == (a@ == b@),
{
    let av = crate::text::chars_of(a);
    let bv = crate::text::chars_of(b);
    if av.len() != bv.len() {
        return false;
    }
    let mut i: usize = 0;
    while i < av.len()
        invariant
            av@ == a@,
            bv@ == b@,
            av.len() == bv.len(),
            i <= av.len(),
            forall|j: int| 0 <= j < i ==> av@[j] == bv@[j],
        decreases av.len() - i,
    {
        if av[i] != bv[i] {
            return false;
        }
        i = i + 1;
    }
    assert(a@ =~= b@);
    true
}

} // verus!
