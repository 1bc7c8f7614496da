//! Filters that take every entry, and filters that take every block meta.

use crate::bindings::share;
use crate::error::{
    collected, lemma_collected_error, lemma_collected_step, FilterError, FilterResult,
};
use crate::limits::{max_check, FilterLimits, FilterLimitsBlocksMeta, FilterLimitsEntries};
use crate::message::{MessageBlockMeta, MessageEntry};
use crate::name::{names_of, FilterName, FilterNames};
use crate::request::{SubscribeRequestFilterBlocksMeta, SubscribeRequestFilterEntry};
use crate::update::{
    once, updates_of, FilteredUpdate, FilteredUpdateFilters, FilteredUpdateOneof, FilteredUpdates,
    UpdateBody, UpdateView,
};
use std::sync::Arc;
use vstd::prelude::*;

verus! {

/// What becomes of each name of a request.
pub open spec fn each_name<T>(configs: Seq<(String, T)>, names: FilterNames) -> Seq<
    FilterResult<Seq<char>>,
> {
    configs.map_values(
        |c: (String, T)|
            match names.checked(c.0@) {
                Ok(name) => Ok::<Seq<char>, FilterError>(name),
                Err(e) => Err(FilterError::Name(e)),
            },
    )
}

/// The names of the filters that a request asks for.
pub open spec fn requested_names<T>(
    configs: Seq<(String, T)>,
    max: usize,
    names: FilterNames,
) -> FilterResult<Seq<Seq<char>>> {
    if let Err(e) = max_check(configs.len() as int, max) {
        Err(FilterError::LimitsCheck(e))
    } else {
        collected(each_name(configs, names))
    }
}

fn read_names<T>(configs: &[(String, T)], max: usize, names: &FilterNames) -> (r: FilterResult<
    Vec<FilterName>,
>)
    ensures
        match requested_names(configs@, max, *names) {
            Ok(names) => r is Ok && names_of(r->Ok_0@) == names,
            Err(e) => r is Err && r->Err_0 == e,
        },
{
    if let Err(e) = FilterLimits::check_max(configs.len(), max) {
        return Err(FilterError::LimitsCheck(e));
    }
    let ghost results = each_name(configs@, *names);
    let mut filters: Vec<FilterName> = Vec::new();
    let mut i: usize = 0;
    assert(results.take(0) =~= Seq::empty());
    assert(names_of(filters@) =~= Seq::empty());
    while i < configs.len()
        invariant
            i <= configs@.len() <= max,
            results == each_name(configs@, *names),
            collected(results.take(i as int)) == Ok::<Seq<Seq<char>>, FilterError>(
                names_of(filters@),
            ),
        decreases configs@.len() - i,
    {
        proof {
            lemma_collected_step(results, i as int);
        }
        let ghost before = filters@;
        match names.get(configs[i].0.as_str()) {
            Ok(name) => {
                filters.push(name);
                assert(names_of(filters@) =~= names_of(before).push(results[i as int]->Ok_0));
            },
            Err(e) => {
                proof {
                    lemma_collected_error(results, i + 1);
                }
                return Err(FilterError::Name(e));
            },
        }
        i += 1;
    }
    assert(results.take(i as int) =~= results);
    Ok(filters)
}

fn copy_names(names: &[FilterName]) -> (r: FilteredUpdateFilters)
    ensures
        names_of(r@) == names_of(names@),
{
    let mut copies: FilteredUpdateFilters = Vec::new();
    let mut i: usize = 0;
    while i < names.len()
        invariant
            i <= names@.len(),
            copies@.len() == i,
            forall|j: int| 0 <= j < i ==> (#[trigger] copies@[j])@ == names@[j]@,
        decreases names@.len() - i,
    {
        copies.push(names[i].clone());
        i += 1;
    }
    assert(names_of(copies@) =~= names_of(names@));
    copies
}

/// Filters on entries, by name.
#[derive(Debug)]
pub struct FilterEntries {
    filters: Vec<FilterName>,
}

impl View for FilterEntries {
    type V = Seq<Seq<char>>;

    closed spec fn view(&self) -> Seq<Seq<char>> {
        names_of(self.filters@)
    }
}

impl Default for FilterEntries {
    fn default() -> (r: Self)
        ensures
            r@ == Seq::<Seq<char>>::empty(),
    {
        let r = FilterEntries { filters: Vec::new() };
        assert(r@ =~= Seq::<Seq<char>>::empty());
        r
    }
}

impl Clone for FilterEntries {
    fn clone(&self) -> (r: Self)
        ensures
            r@ == self@,
    {
        FilterEntries { filters: copy_names(self.filters.as_slice()) }
    }
}

/// The updates that filters give for an entry: one with the names of all filters, if there are
/// any.
pub open spec fn entry_updates(filters: Seq<Seq<char>>, message: Arc<MessageEntry>) -> Seq<
    UpdateView,
> {
    once(filters, UpdateBody::Entry(message), message.created_at)
}

impl FilterEntries {
    /// The number of filters.
    pub fn len(&self) -> (r: usize)
        ensures
            r == self@.len(),
    {
        self.filters.len()
    }

    pub fn new(
        configs: &[(String, SubscribeRequestFilterEntry)],
        limits: &FilterLimitsEntries,
        names: &FilterNames,
    ) -> (r: FilterResult<Self>)
        ensures
            match requested_names(configs@, limits.max, *names) {
                Ok(filters) => r is Ok && r->Ok_0@ == filters,
                Err(e) => r is Err && r->Err_0 == e,
            },
    {
        match read_names(configs, limits.max, names) {
            Ok(filters) => Ok(FilterEntries { filters }),
            Err(e) => Err(e),
        }
    }

    pub fn get_updates(&self, message: &Arc<MessageEntry>) -> (r: FilteredUpdates)
        ensures
            updates_of(r@) == entry_updates(self@, *message),
    {
        FilteredUpdate::once(
            copy_names(self.filters.as_slice()),
            FilteredUpdateOneof::entry(share(message)),
            message.created_at,
        )
    }
}

/// Filters on block metas, by name.
#[derive(Debug)]
pub struct FilterBlocksMeta {
    filters: Vec<FilterName>,
}

impl View for FilterBlocksMeta {
    type V = Seq<Seq<char>>;

    closed spec fn view(&self) -> Seq<Seq<char>> {
        names_of(self.filters@)
    }
}

impl Default for FilterBlocksMeta {
    fn default() -> (r: Self)
        ensures
            r@ == Seq::<Seq<char>>::empty(),
    {
        let r = FilterBlocksMeta { filters: Vec::new() };
        assert(r@ =~= Seq::<Seq<char>>::empty());
        r
    }
}

impl Clone for FilterBlocksMeta {
    fn clone(&self) -> (r: Self)
        ensures
            r@ == self@,
    {
        FilterBlocksMeta { filters: copy_names(self.filters.as_slice()) }
    }
}

/// The updates that filters give for a block meta: one with the names of all filters, if there
/// are any.
pub open spec fn block_meta_updates(
    filters: Seq<Seq<char>>,
    message: Arc<MessageBlockMeta>,
) -> Seq<UpdateView> {
    once(filters, UpdateBody::BlockMeta(message), message.created_at)
}

impl FilterBlocksMeta {
    /// The number of filters.
    pub fn len(&self) -> (r: usize)
        ensures
            r == self@.len(),
    {
        self.filters.len()
    }

    pub fn new(
        configs: &[(String, SubscribeRequestFilterBlocksMeta)],
        limits: &FilterLimitsBlocksMeta,
        names: &FilterNames,
    ) -> (r: FilterResult<Self>)
        ensures
            match requested_names(configs@, limits.max, *names) {
                Ok(filters) => r is Ok && r->Ok_0@ == filters,
                Err(e) => r is Err && r->Err_0 == e,
            },
    {
        match read_names(configs, limits.max, names) {
            Ok(filters) => Ok(FilterBlocksMeta { filters }),
            Err(e) => Err(e),
        }
    }

    pub fn get_updates(&self, message: &Arc<MessageBlockMeta>) -> (r: FilteredUpdates)
        ensures
            updates_of(r@) == block_meta_updates(self@, *message),
    {
        FilteredUpdate::once(
            copy_names(self.filters.as_slice()),
            FilteredUpdateOneof::block_meta(share(message)),
            message.created_at,
        )
    }
}

} // verus!
