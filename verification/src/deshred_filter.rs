//! The filter of one subscriber of the deshred stream.

use crate::demand::DeshredDemand;
use crate::deshred_gate::{demands_of, DeshredTransactionFilterRule};
use crate::deshred_transactions::{
    deshred_updates, met_by, requested_filters, FilterDeshredTransactions,
};
use crate::error::{agrees, FilterResult};
use crate::filter_laws::lemma_accepted_deshred_names;
use crate::gate::views;
use crate::limits::FilterLimits;
use crate::listing::{distinct_names, lemma_chosen_once};
use crate::message::Message;
use crate::name::FilterNames;
use crate::request::SubscribeDeshredRequest;
use crate::update::{
    deshred_updates_of, DeshredUpdateBody, DeshredUpdateView, FilteredUpdateDeshred,
    FilteredUpdatesDeshred,
};
use vstd::prelude::*;

verus! {

/// What a subscriber of the deshred stream asked for.
#[verifier::ext_equal]
pub struct DeshredFilterView {
    pub deshred_transactions: Seq<(Seq<char>, DeshredDemand)>,
    pub ping: Option<i32>,
}

impl DeshredFilterView {
    /// Nothing was asked for.
    pub open spec fn none() -> Self {
        DeshredFilterView { deshred_transactions: Seq::empty(), ping: None }
    }

    /// What a request asks for, or why it is refused.
    pub open spec fn requested(
        config: SubscribeDeshredRequest,
        limits: FilterLimits,
        names: FilterNames,
    ) -> FilterResult<Self> {
        match requested_filters(config.deshred_transactions@, limits.deshred_transactions, names) {
            Err(e) => Err(e),
            Ok(deshred_transactions) => Ok(
                DeshredFilterView {
                    deshred_transactions,
                    ping: match config.ping {
                        Some(ping) => Some(ping.id),
                        None => None,
                    },
                },
            ),
        }
    }

    /// The updates that the subscriber gets for a message: some for transactions that were
    /// received, none for anything else.
    pub open spec fn updates(self, message: Message) -> Seq<DeshredUpdateView> {
        match message {
            Message::DeshredTransaction(message) => deshred_updates(
                self.deshred_transactions,
                message,
            ),
            _ => Seq::empty(),
        }
    }
}

/// The filter of one subscriber of the deshred stream. It is separate from the filter of the
/// main stream.
#[derive(Debug)]
pub struct DeshredFilter {
    deshred_transactions: FilterDeshredTransactions,
    ping: Option<i32>,
}

impl View for DeshredFilter {
    type V = DeshredFilterView;

    closed spec fn view(&self) -> DeshredFilterView {
        DeshredFilterView {
            deshred_transactions: self.deshred_transactions@,
            ping: self.ping,
        }
    }
}

impl Default for DeshredFilter {
    fn default() -> (r: Self)
        ensures
            r@ == DeshredFilterView::none(),
    {
        DeshredFilter { deshred_transactions: FilterDeshredTransactions::default(), ping: None }
    }
}

impl Clone for DeshredFilter {
    fn clone(&self) -> (r: Self)
        ensures
            r@ == self@,
    {
        proof {
            use_type_invariant(self);
        }
        DeshredFilter {
            deshred_transactions: self.deshred_transactions.clone(),
            ping: self.ping,
        }
    }
}

impl DeshredFilter {
    #[verifier::type_invariant]
    spec fn inv(&self) -> bool {
        distinct_names(self.deshred_transactions@)
    }

    pub fn new(
        config: &SubscribeDeshredRequest,
        limits: &FilterLimits,
        names: &FilterNames,
    ) -> (r: FilterResult<Self>)
        ensures
            agrees(r, DeshredFilterView::requested(*config, *limits, *names)),
            r is Ok ==> distinct_names(r->Ok_0@.deshred_transactions),
    {
        let deshred_transactions = match FilterDeshredTransactions::new(
            config.deshred_transactions.as_slice(),
            &limits.deshred_transactions,
            names,
        ) {
            Ok(deshred_transactions) => deshred_transactions,
            Err(e) => return Err(e),
        };
        let ping = match &config.ping {
            Some(ping) => Some(ping.id),
            None => None,
        };
        proof {
            lemma_accepted_deshred_names(*config, *limits, *names);
        }
        Ok(DeshredFilter { deshred_transactions, ping })
    }

    pub fn get_updates(&self, message: &Message) -> (r: FilteredUpdatesDeshred)
        ensures
            deshred_updates_of(r@) == self@.updates(*message),
            forall|i: int|
                0 <= i < r@.len() ==> {
                    &&& (#[trigger] r@[i])@.filters.len() > 0
                    &&& r@[i]@.filters.no_duplicates()
                },
    {
        proof {
            use_type_invariant(self);
        }
        match message {
            Message::DeshredTransaction(message) => {
                let updates = self.deshred_transactions.get_updates(message);
                proof {
                    lemma_chosen_once(self@.deshred_transactions, met_by(*message));
                    assert forall|i: int| 0 <= i < updates@.len() implies {
                        &&& (#[trigger] updates@[i])@.filters.len() > 0
                        &&& updates@[i]@.filters.no_duplicates()
                    } by {
                        assert(deshred_updates_of(updates@)[i] == updates@[i]@);
                        assert(i < deshred_updates(self@.deshred_transactions, *message).len());
                        assert(i == 0);
                    }
                }
                updates
            },
            _ => {
                let updates: FilteredUpdatesDeshred = Vec::new();
                assert(deshred_updates_of(updates@) =~= Seq::empty());
                updates
            },
        }
    }

    pub fn get_deshred_transaction_filter_rules(&self) -> (r: Vec<DeshredTransactionFilterRule>)
        ensures
            views(r@) == demands_of(self@.deshred_transactions),
            forall|i: int| 0 <= i < r@.len() ==> (#[trigger] r@[i]).lists_each_once(),
    {
        let mut rules: Vec<DeshredTransactionFilterRule> = Vec::with_capacity(
            self.deshred_transactions.len(),
        );
        self.deshred_transactions.collect_rules(&mut rules);
        assert(views(rules@) =~= demands_of(self@.deshred_transactions));
        rules
    }

    /// The answer to the ping of the request, if there was one.
    pub fn get_pong_msg(&self) -> (r: Option<FilteredUpdateDeshred>)
        ensures
            match (r, self@.ping) {
                (Some(pong), Some(id)) => pong@ == (DeshredUpdateView {
                    filters: Seq::empty(),
                    message: DeshredUpdateBody::Pong { id },
                    created_at: None,
                }),
                (None, None) => true,
                _ => false,
            },
    {
        match self.ping {
            Some(id) => Some(FilteredUpdateDeshred::pong(id)),
            None => None,
        }
    }

    /// How many filters there are.
    pub fn get_metrics(&self) -> (r: [(&'static str, usize); 2])
        ensures
            r@ == deshred_metrics(self@),
    {
        let count: usize = self.deshred_transactions.len();
        let r = [("deshred_transactions", count), ("all", count)];
        assert(r@ =~= deshred_metrics(self@));
        r
    }
}

/// The counts of a subscriber's filters, by what they count.
pub open spec fn deshred_metrics(filter: DeshredFilterView) -> Seq<(&'static str, usize)> {
    seq![
        ("deshred_transactions", filter.deshred_transactions.len() as usize),
        ("all", filter.deshred_transactions.len() as usize),
    ]
}

} // verus!
