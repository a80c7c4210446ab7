use vstd::prelude::*;

use crate::models::message::{lemma_views_push, lemma_views_take_next, views_of};

verus! {

/// Values that can be copied into an equal value.
pub trait Duplicate: View + Sized {
    /// A copy with the same view.
    fn duplicate(&self) -> (r: Self)
        ensures
            r@ == self@;
}

impl Duplicate for String {
    fn duplicate(&self) -> (r: Self) {
        self.clone()
    }
}

/// Copies a vector element by element.
pub fn duplicate_vec<T: Duplicate>(v: &Vec<T>) -> (r: Vec<T>)
    ensures
        views_of(r@) == views_of(v@),
{
    let mut r: Vec<T> = Vec::new();
    let mut i: usize = 0;
    while i < v.len()
        invariant
            i <= v.len(),
            views_of(r@) == views_of(v@.take(i as int)),
        decreases v.len() - i,
    {
        let c = v[i].duplicate();
        proof {
            lemma_views_push(r@, c);
            lemma_views_take_next(v@, i as int);
        }
        r.push(c);
        i = i + 1;
    }
    assert(v@.take(v.len() as int) == v@);
    r
}

/// The view of an optional value.
pub open spec fn opt_view_of<T: View>(o: Option<T>) -> Option<T::V> {
    match o {
        Some(t) => Some(t@),
        None => None,
    }
}

/// Copies an optional value.
pub fn duplicate_opt<T: Duplicate>(o: &Option<T>) -> (r: Option<T>)
    ensures
        opt_view_of(r) == opt_view_of(*o),
{
    match o {
        Some(t) => Some(t.duplicate()),
        None => None,
    }
}

} // verus!
