//! Filters on slots.

use crate::error::{
    agrees, collected, lemma_collected_error, lemma_collected_step, FilterError, FilterResult,
};
use crate::limits::{max_check, FilterLimits, FilterLimitsSlots};
use crate::listing::{chosen, lemma_chosen_none, lemma_chosen_step, listed};
use crate::message::{CommitmentLevel, MessageSlot};
use crate::name::{names_of, FilterName, FilterNames};
use crate::request::SubscribeRequestFilterSlots;
use crate::update::{
    once, updates_of, FilteredUpdate, FilteredUpdateFilters, FilteredUpdateOneof, FilteredUpdates,
    UpdateBody, UpdateView,
};
use vstd::prelude::*;

verus! {

/// What one filter demands of a slot.
#[derive(Debug, Clone, Copy, PartialEq, Eq, Structural)]
pub struct FilterSlotsInner {
    pub filter_by_commitment: bool,
    pub interslot_updates: bool,
}

impl View for FilterSlotsInner {
    type V = FilterSlotsInner;

    open spec fn view(&self) -> FilterSlotsInner {
        *self
    }
}

impl FilterSlotsInner {
    pub open spec fn requested(filter: SubscribeRequestFilterSlots) -> Self {
        FilterSlotsInner {
            filter_by_commitment: filter.filter_by_commitment == Some(true),
            interslot_updates: filter.interslot_updates == Some(true),
        }
    }

    pub fn new(filter: SubscribeRequestFilterSlots) -> (r: Self)
        ensures
            r == Self::requested(filter),
    {
        FilterSlotsInner {
            filter_by_commitment: match filter.filter_by_commitment {
                Some(value) => value,
                None => false,
            },
            interslot_updates: match filter.interslot_updates {
                Some(value) => value,
                None => false,
            },
        }
    }

    /// The slot has the commitment level that the subscriber looks at, where the filter asks for
    /// that; it has reached a commitment level, unless the filter takes what lies between too.
    pub open spec fn met(self, message: MessageSlot, commitment: Option<CommitmentLevel>) -> bool {
        &&& self.filter_by_commitment ==> commitment is Some && commitment
            == message.status.level()
        &&& self.interslot_updates || message.status.level() is Some
    }

    pub fn is_match(&self, message: &MessageSlot, commitment: Option<CommitmentLevel>) -> (r: bool)
        ensures
            r == self.met(*message, commitment),
    {
        let level = message.status.commitment_level();
        let at_commitment = match (commitment, level) {
            (Some(commitment), Some(level)) => commitment == level,
            _ => false,
        };
        (!self.filter_by_commitment || at_commitment) && (self.interslot_updates
            || level.is_some())
    }
}

/// The filter that a request asks for under a name.
pub open spec fn requested_filter(
    name: Seq<char>,
    filter: SubscribeRequestFilterSlots,
    names: FilterNames,
) -> FilterResult<(Seq<char>, FilterSlotsInner)> {
    match names.checked(name) {
        Err(e) => Err(FilterError::Name(e)),
        Ok(name) => Ok((name, FilterSlotsInner::requested(filter))),
    }
}

/// What becomes of each filter that is asked for.
pub open spec fn each_requested(
    configs: Seq<(String, SubscribeRequestFilterSlots)>,
    names: FilterNames,
) -> Seq<FilterResult<(Seq<char>, FilterSlotsInner)>> {
    configs.map_values(
        |c: (String, SubscribeRequestFilterSlots)| requested_filter(c.0@, c.1, names),
    )
}

/// The filters that a request asks for.
pub open spec fn requested_filters(
    configs: Seq<(String, SubscribeRequestFilterSlots)>,
    limits: FilterLimitsSlots,
    names: FilterNames,
) -> FilterResult<Seq<(Seq<char>, FilterSlotsInner)>> {
    if let Err(e) = max_check(configs.len() as int, limits.max) {
        Err(FilterError::LimitsCheck(e))
    } else {
        collected(each_requested(configs, names))
    }
}

/// The demands that a slot meets for a subscriber that looks at a commitment level.
pub open spec fn met_by(message: MessageSlot, commitment: Option<CommitmentLevel>) -> spec_fn(
    FilterSlotsInner,
) -> bool {
    |d: FilterSlotsInner| d.met(message, commitment)
}

/// The updates that filters give for a slot: one with the names of all filters whose demand it
/// meets, if there are any.
pub open spec fn slot_updates(
    filters: Seq<(Seq<char>, FilterSlotsInner)>,
    message: MessageSlot,
    commitment: Option<CommitmentLevel>,
) -> Seq<UpdateView> {
    once(
        chosen(filters, met_by(message, commitment)),
        UpdateBody::Slot(message),
        message.created_at,
    )
}

/// Filters on slots, by name.
#[derive(Debug)]
pub struct FilterSlots {
    filters: Vec<(FilterName, FilterSlotsInner)>,
}

impl View for FilterSlots {
    type V = Seq<(Seq<char>, FilterSlotsInner)>;

    closed spec fn view(&self) -> Seq<(Seq<char>, FilterSlotsInner)> {
        listed(self.filters@)
    }
}

impl Default for FilterSlots {
    fn default() -> (r: Self)
        ensures
            r@ == Seq::<(Seq<char>, FilterSlotsInner)>::empty(),
    {
        let r = FilterSlots { filters: Vec::new() };
        assert(r@ =~= Seq::<(Seq<char>, FilterSlotsInner)>::empty());
        r
    }
}

impl Clone for FilterSlots {
    fn clone(&self) -> (r: Self)
        ensures
            r@ == self@,
    {
        let mut filters: Vec<(FilterName, FilterSlotsInner)> = Vec::new();
        let mut i: usize = 0;
        while i < self.filters.len()
            invariant
                i <= self.filters@.len(),
                listed(filters@) =~= listed(self.filters@).take(i as int),
            decreases self.filters@.len() - i,
        {
            let ghost before = filters@;
            filters.push((self.filters[i].0.clone(), self.filters[i].1));
            assert(listed(filters@) =~= listed(before).push(listed(self.filters@)[i as int]));
            i += 1;
        }
        assert(listed(self.filters@).take(i as int) =~= listed(self.filters@));
        FilterSlots { filters }
    }
}

impl FilterSlots {
    /// The number of filters.
    pub fn len(&self) -> (r: usize)
        ensures
            r == self@.len(),
    {
        self.filters.len()
    }

    pub fn new(
        configs: &[(String, SubscribeRequestFilterSlots)],
        limits: &FilterLimitsSlots,
        names: &FilterNames,
    ) -> (r: FilterResult<Self>)
        ensures
            agrees(r, requested_filters(configs@, *limits, *names)),
    {
        if let Err(e) = FilterLimits::check_max(configs.len(), limits.max) {
            return Err(FilterError::LimitsCheck(e));
        }
        let ghost results = each_requested(configs@, *names);
        let mut filters: Vec<(FilterName, FilterSlotsInner)> = Vec::new();
        let mut i: usize = 0;
        assert(results.take(0) =~= Seq::empty());
        assert(listed(filters@) =~= Seq::empty());
        while i < configs.len()
            invariant
                i <= configs@.len() <= limits.max,
                results == each_requested(configs@, *names),
                collected(results.take(i as int)) == Ok::<
                    Seq<(Seq<char>, FilterSlotsInner)>,
                    FilterError,
                >(listed(filters@)),
            decreases configs@.len() - i,
        {
            proof {
                lemma_collected_step(results, i as int);
            }
            let ghost before = filters@;
            match names.get(configs[i].0.as_str()) {
                Ok(name) => {
                    filters.push((name, FilterSlotsInner::new(configs[i].1)));
                    assert(listed(filters@) =~= listed(before).push(results[i as int]->Ok_0));
                },
                Err(e) => {
                    proof {
                        lemma_collected_error(results, i + 1);
                    }
                    return Err(FilterError::Name(e));
                },
            }
            i += 1;
        }
        assert(results.take(i as int) =~= results);
        Ok(FilterSlots { filters })
    }

    pub fn get_updates(&self, message: &MessageSlot, commitment: Option<CommitmentLevel>) -> (r:
        FilteredUpdates)
        ensures
            updates_of(r@) == slot_updates(self@, *message, commitment),
    {
        let mut filters: FilteredUpdateFilters = Vec::new();
        let mut i: usize = 0;
        proof {
            lemma_chosen_none(self@.take(0), met_by(*message, commitment));
            assert(names_of(filters@) =~= Seq::empty());
        }
        while i < self.filters.len()
            invariant
                i <= self.filters@.len(),
                names_of(filters@) == chosen(self@.take(i as int), met_by(*message, commitment)),
            decreases self.filters@.len() - i,
        {
            proof {
                lemma_chosen_step(self@, met_by(*message, commitment), i as int);
            }
            if self.filters[i].1.is_match(message, commitment) {
                let ghost before = filters@;
                filters.push(self.filters[i].0.clone());
                assert(names_of(filters@) =~= names_of(before).push(self@[i as int].0));
            }
            i += 1;
        }
        assert(self@.take(i as int) =~= self@);
        FilteredUpdate::once(
            filters,
            FilteredUpdateOneof::slot(message.clone()),
            message.created_at,
        )
    }
}

} // verus!
