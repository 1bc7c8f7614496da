//! Filters in lists: each with its name, in the order in which they were asked for.

use crate::name::FilterName;
use vstd::prelude::*;

verus! {

/// What the filters of a list are, each with its name.
pub open spec fn listed<T: View>(filters: Seq<(FilterName, T)>) -> Seq<(Seq<char>, T::V)> {
    filters.map_values(|f: (FilterName, T)| (f.0@, f.1@))
}

/// No two filters of a list have the same name.
pub open spec fn distinct_names<M>(filters: Seq<(Seq<char>, M)>) -> bool {
    forall|i: int, j: int|
        0 <= i < j < filters.len() ==> (#[trigger] filters[i]).0 != (#[trigger] filters[j]).0
}

/// The names of the filters that accept, in the order of the list.
pub open spec fn chosen<M>(
    filters: Seq<(Seq<char>, M)>,
    accepts: spec_fn(M) -> bool,
) -> Seq<Seq<char>> {
    filters.filter(|f: (Seq<char>, M)| accepts(f.1)).map_values(|f: (Seq<char>, M)| f.0)
}

/// The first filters choose what those before the last of them choose, and the last one where
/// it accepts.
pub proof fn lemma_chosen_step<M>(
    filters: Seq<(Seq<char>, M)>,
    accepts: spec_fn(M) -> bool,
    i: int,
)
    requires
        0 <= i < filters.len(),
    ensures
        chosen(filters.take(i + 1), accepts) == if accepts(filters[i].1) {
            chosen(filters.take(i), accepts).push(filters[i].0)
        } else {
            chosen(filters.take(i), accepts)
        },
{
    let keep = |f: (Seq<char>, M)| accepts(f.1);
    assert(filters.take(i + 1) =~= filters.take(i).push(filters[i]));
    filters.take(i).lemma_filter_push(filters[i], keep);
    assert(chosen(filters.take(i + 1), accepts) =~= if accepts(filters[i].1) {
        chosen(filters.take(i), accepts).push(filters[i].0)
    } else {
        chosen(filters.take(i), accepts)
    });
}

/// An empty list chooses nothing.
pub proof fn lemma_chosen_none<M>(filters: Seq<(Seq<char>, M)>, accepts: spec_fn(M) -> bool)
    requires
        filters.len() == 0,
    ensures
        chosen(filters, accepts) == Seq::<Seq<char>>::empty(),
{
    reveal(Seq::filter);
    assert(chosen(filters, accepts) =~= Seq::<Seq<char>>::empty());
}

/// A name is chosen where a filter of that name accepts, and nowhere else.
pub proof fn lemma_chosen<M>(filters: Seq<(Seq<char>, M)>, accepts: spec_fn(M) -> bool)
    ensures
        forall|name: Seq<char>|
            #[trigger] chosen(filters, accepts).contains(name) <==> exists|i: int|
                {
                    &&& 0 <= i < filters.len()
                    &&& (#[trigger] filters[i]).0 == name
                    &&& accepts(filters[i].1)
                },
    decreases filters.len(),
{
    if filters.len() == 0 {
        lemma_chosen_none(filters, accepts);
    } else {
        let n = filters.len() - 1;
        let rest = filters.take(n);
        lemma_chosen(rest, accepts);
        lemma_chosen_step(filters, accepts, n);
        assert(filters.take(n + 1) =~= filters);
        let all = chosen(filters, accepts);
        let some = chosen(rest, accepts);
        assert forall|name: Seq<char>| #[trigger] all.contains(name) <==> exists|i: int|
            {
                &&& 0 <= i < filters.len()
                &&& (#[trigger] filters[i]).0 == name
                &&& accepts(filters[i].1)
            } by {
            if all.contains(name) {
                let k = choose|k: int| 0 <= k < all.len() && all[k] == name;
                if k < some.len() {
                    assert(some.contains(some[k]));
                    let i = choose|i: int|
                        {
                            &&& 0 <= i < rest.len()
                            &&& (#[trigger] rest[i]).0 == name
                            &&& accepts(rest[i].1)
                        };
                    assert(filters[i].0 == name);
                } else {
                    assert(filters[n].0 == name);
                }
            }
            if exists|i: int|
                {
                    &&& 0 <= i < filters.len()
                    &&& (#[trigger] filters[i]).0 == name
                    &&& accepts(filters[i].1)
                } {
                let i = choose|i: int|
                    {
                        &&& 0 <= i < filters.len()
                        &&& (#[trigger] filters[i]).0 == name
                        &&& accepts(filters[i].1)
                    };
                if i < n {
                    assert(rest[i].0 == name);
                    assert(some.contains(name));
                    let k = choose|k: int| 0 <= k < some.len() && some[k] == name;
                    assert(all[k] == name);
                } else {
                    assert(all[all.len() - 1] == name);
                }
            }
        }
    }
}

/// Something is chosen where some filter accepts, and nowhere else.
pub proof fn lemma_chosen_any<M>(filters: Seq<(Seq<char>, M)>, accepts: spec_fn(M) -> bool)
    ensures
        chosen(filters, accepts).len() > 0 <==> exists|i: int|
            0 <= i < filters.len() && accepts((#[trigger] filters[i]).1),
{
    lemma_chosen(filters, accepts);
    if chosen(filters, accepts).len() > 0 {
        assert(chosen(filters, accepts).contains(chosen(filters, accepts)[0]));
    }
    if exists|i: int| 0 <= i < filters.len() && accepts((#[trigger] filters[i]).1) {
        let i = choose|i: int| 0 <= i < filters.len() && accepts((#[trigger] filters[i]).1);
        assert(chosen(filters, accepts).contains(filters[i].0));
    }
}

/// Where the names of a list are distinct, no name is chosen twice.
pub proof fn lemma_chosen_once<M>(filters: Seq<(Seq<char>, M)>, accepts: spec_fn(M) -> bool)
    requires
        distinct_names(filters),
    ensures
        chosen(filters, accepts).no_duplicates(),
    decreases filters.len(),
{
    if filters.len() == 0 {
        lemma_chosen_none(filters, accepts);
    } else {
        let n = filters.len() - 1;
        let rest = filters.take(n);
        assert forall|i: int, j: int| 0 <= i < j < rest.len() implies (#[trigger] rest[i]).0 != (
        #[trigger] rest[j]).0 by {
            assert(filters[i].0 != filters[j].0);
        }
        lemma_chosen_once(rest, accepts);
        lemma_chosen(rest, accepts);
        lemma_chosen_step(filters, accepts, n);
        assert(filters.take(n + 1) =~= filters);
        if chosen(rest, accepts).contains(filters[n].0) {
            let i = choose|i: int|
                {
                    &&& 0 <= i < rest.len()
                    &&& (#[trigger] rest[i]).0 == filters[n].0
                    &&& accepts(rest[i].1)
                };
            assert(filters[i].0 != filters[n].0);
        }
    }
}

} // verus!
