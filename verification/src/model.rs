//! Views shared by the records of the library.
use crate::json::{Json, JsonV};
use vstd::prelude::*;

verus! {

/// A result with its success value taken by its view.
pub open spec fn result_view<T: View, E>(r: Result<T, E>) -> Result<T::V, E> {
    match r {
        Ok(v) => Ok(v@),
        Err(e) => Err(e),
    }
}

/// An option with its value taken by its view.
pub open spec fn opt_view<T: View>(o: Option<T>) -> Option<T::V> {
    match o {
        Some(v) => Some(v@),
        None => None,
    }
}

/// The views of the elements of a sequence.
pub open spec fn views<T: View>(s: Seq<T>) -> Seq<T::V> {
    s.map_values(|x: T| x@)
}

/// The results of `f` on each item, in order, or the error of the first item
/// on which `f` fails.
pub open spec fn collect_ok<A, B, E>(items: Seq<A>, f: spec_fn(A) -> Result<B, E>) -> Result<Seq<B>, E>
    decreases items.len(),
{
    if items.len() == 0 {
        Ok(Seq::empty())
    } else {
        match collect_ok(items.drop_last(), f) {
            Err(e) => Err(e),
            Ok(bs) => match f(items.last()) {
                Err(e) => Err(e),
                Ok(b) => Ok(bs.push(b)),
            },
        }
    }
}

/// The results of `f` on the items on which it succeeds, in order.
pub open spec fn keep_ok<A, B, E>(items: Seq<A>, f: spec_fn(A) -> Result<B, E>) -> Seq<B>
    decreases items.len(),
{
    if items.len() == 0 {
        Seq::empty()
    } else {
        let rest = keep_ok(items.drop_last(), f);
        match f(items.last()) {
            Ok(b) => rest.push(b),
            Err(_) => rest,
        }
    }
}

/// Once an item fails, the items after it do not change the result.
pub proof fn lemma_collect_err_prefix<A, B, E>(items: Seq<A>, f: spec_fn(A) -> Result<B, E>, n: int)
    requires
        0 <= n <= items.len(),
        collect_ok(items.subrange(0, n), f) is Err,
    ensures
        collect_ok(items, f) == collect_ok(items.subrange(0, n), f),
    decreases items.len(),
{
    if n < items.len() {
        assert(items.drop_last().subrange(0, n) =~= items.subrange(0, n));
        lemma_collect_err_prefix(items.drop_last(), f, n);
    } else {
        assert(items.subrange(0, n) =~= items);
    }
}

/// The index of the first element that satisfies `p`.
pub open spec fn first_index<A>(s: Seq<A>, p: spec_fn(A) -> bool) -> Option<int>
    decreases s.len(),
{
    if s.len() == 0 {
        None
    } else {
        match first_index(s.drop_last(), p) {
            Some(i) => Some(i),
            None => if p(s.last()) {
                Some(s.len() - 1)
            } else {
                None
            },
        }
    }
}

/// Once a prefix has a first match, the whole sequence has the same one.
pub proof fn lemma_first_index_prefix<A>(s: Seq<A>, p: spec_fn(A) -> bool, n: int)
    requires
        0 <= n <= s.len(),
        first_index(s.subrange(0, n), p) is Some,
    ensures
        first_index(s, p) == first_index(s.subrange(0, n), p),
    decreases s.len(),
{
    if n < s.len() {
        assert(s.drop_last().subrange(0, n) =~= s.subrange(0, n));
        lemma_first_index_prefix(s.drop_last(), p, n);
    } else {
        assert(s.subrange(0, n) =~= s);
    }
}

pub proof fn lemma_first_index_bound<A>(s: Seq<A>, p: spec_fn(A) -> bool)
    ensures
        first_index(s, p) matches Some(i) ==> 0 <= i < s.len() && p(s[i]),
    decreases s.len(),
{
    if s.len() > 0 {
        lemma_first_index_bound(s.drop_last(), p);
    }
}

/// The value that `o` stands for, with `d` (a `null`) for none.
pub fn deref_or<'a>(o: Option<&'a Json>, d: &'a Json) -> (r: &'a Json)
    requires
        d@ == JsonV::Null,
    ensures
        r@ == crate::json::or_null(o),
{
    match o {
        Some(j) => j,
        None => d,
    }
}

/// A copy of a list of strings.
pub fn copy_strings(v: &Vec<String>) -> (r: Vec<String>)
    ensures
        views(r@) == views(v@),
{
    let mut r: Vec<String> = Vec::new();
    let mut i: usize = 0;
    while i < v.len()
        invariant
            i <= v@.len(),
            r@.len() == i,
            forall|k: int| 0 <= k < i ==> #[trigger] r@[k]@ == v@[k]@,
        decreases v@.len() - i,
    {
        let c = v[i].clone();
        assert(c@ == v@[i as int]@);
        r.push(c);
        i = i + 1;
    }
    assert(views(r@) =~= views(v@));
    r
}

/// A copy of an optional string.
pub fn copy_opt_string(o: &Option<String>) -> (r: Option<String>)
    ensures
        opt_view(r) == opt_view(*o),
{
    match o {
        Some(s) => Some(s.clone()),
        None => None,
    }
}

} // verus!
