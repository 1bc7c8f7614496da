//! Conditions on the content of accounts: their data and their lamports.

use crate::bindings::{
    base58_bytes, base64_bytes, decode_base58, decode_base64, is_valid_token_account,
    valid_token_account,
};
use crate::error::{agrees, FilterError, FilterResult};
use crate::name::byte_len;
use crate::pubkey::bytes_equal;
use crate::request::{
    AccountsFilterDataOneof, AccountsFilterLamports, AccountsFilterMemcmpOneof,
    SubscribeRequestFilterAccountsFilter,
};
use vstd::prelude::*;
use vstd::std_specs::convert::FromSpecImpl;

verus! {

/// The most conditions that one filter can have.
pub const MAX_FILTERS: usize = 4;

/// The most bytes that a condition can look for.
pub const MAX_DATA_SIZE: usize = 128;

/// The most bytes of a base58 text that is read.
pub const MAX_DATA_BASE58_SIZE: usize = 175;

/// The most bytes of a base64 text that is read.
pub const MAX_DATA_BASE64_SIZE: usize = 172;

/// A condition on the lamports of an account.
#[derive(Debug, Clone, Copy, PartialEq, Eq, Structural)]
pub enum FilterAccountsLamports {
    Eq(u64),
    Ne(u64),
    Lt(u64),
    Gt(u64),
}

impl FilterAccountsLamports {
    pub open spec fn requested(comparison: AccountsFilterLamports) -> Self {
        match comparison {
            AccountsFilterLamports::Eq(value) => FilterAccountsLamports::Eq(value),
            AccountsFilterLamports::Ne(value) => FilterAccountsLamports::Ne(value),
            AccountsFilterLamports::Lt(value) => FilterAccountsLamports::Lt(value),
            AccountsFilterLamports::Gt(value) => FilterAccountsLamports::Gt(value),
        }
    }

    pub open spec fn holds(self, lamports: u64) -> bool {
        match self {
            FilterAccountsLamports::Eq(value) => lamports == value,
            FilterAccountsLamports::Ne(value) => lamports != value,
            FilterAccountsLamports::Lt(value) => lamports < value,
            FilterAccountsLamports::Gt(value) => lamports > value,
        }
    }

    pub fn is_match(self, lamports: u64) -> (r: bool)
        ensures
            r == self.holds(lamports),
    {
        match self {
            FilterAccountsLamports::Eq(value) => value == lamports,
            FilterAccountsLamports::Ne(value) => value != lamports,
            FilterAccountsLamports::Lt(value) => value > lamports,
            FilterAccountsLamports::Gt(value) => value < lamports,
        }
    }
}

impl<'a> From<&'a AccountsFilterLamports> for FilterAccountsLamports {
    fn from(comparison: &'a AccountsFilterLamports) -> (r: Self) {
        match comparison {
            AccountsFilterLamports::Eq(value) => FilterAccountsLamports::Eq(*value),
            AccountsFilterLamports::Ne(value) => FilterAccountsLamports::Ne(*value),
            AccountsFilterLamports::Lt(value) => FilterAccountsLamports::Lt(*value),
            AccountsFilterLamports::Gt(value) => FilterAccountsLamports::Gt(*value),
        }
    }
}

impl<'a> FromSpecImpl<&'a AccountsFilterLamports> for FilterAccountsLamports {
    open spec fn obeys_from_spec() -> bool {
        true
    }

    open spec fn from_spec(comparison: &'a AccountsFilterLamports) -> Self {
        Self::requested(*comparison)
    }
}

/// A requested number as a position or a length in memory.
pub open spec fn in_memory(number: u64) -> usize {
    number as usize
}

fn to_memory(number: u64) -> (r: usize)
    ensures
        r == in_memory(number),
{
    number as usize
}

/// The bytes lie in the data at the offset.
pub open spec fn found_at(offset: usize, bytes: Seq<u8>, data: Seq<u8>) -> bool {
    &&& offset + bytes.len() <= data.len()
    &&& data.subrange(offset as int, offset + bytes.len()) == bytes
}

fn is_found_at(offset: usize, bytes: &[u8], data: &[u8]) -> (r: bool)
    ensures
        r == found_at(offset, bytes@, data@),
{
    if data.len() < bytes.len() || data.len() - bytes.len() < offset {
        return false;
    }
    let part = vstd::slice::slice_subrange(data, offset, offset + bytes.len());
    bytes_equal(part, bytes)
}

/// The conditions of one filter: bytes to find at offsets, a length, being a token account,
/// and comparisons of the lamports.
#[verifier::ext_equal]
pub struct StateView {
    pub patterns: Seq<(usize, Seq<u8>)>,
    pub datasize: Option<usize>,
    pub token_account_state: bool,
    pub lamports: Seq<FilterAccountsLamports>,
}

impl StateView {
    /// No condition.
    pub open spec fn none() -> Self {
        StateView {
            patterns: Seq::empty(),
            datasize: None,
            token_account_state: false,
            lamports: Seq::empty(),
        }
    }

    pub open spec fn is_empty(self) -> bool {
        &&& self.patterns.len() == 0
        &&& self.datasize is None
        &&& !self.token_account_state
        &&& self.lamports.len() == 0
    }

    /// Every condition holds of an account with this data and these lamports.
    pub open spec fn holds(self, data: Seq<u8>, lamports: u64) -> bool {
        &&& self.datasize is Some ==> data.len() == self.datasize->0
        &&& self.token_account_state ==> valid_token_account(data)
        &&& forall|i: int|
            0 <= i < self.lamports.len() ==> (#[trigger] self.lamports[i]).holds(lamports)
        &&& forall|i: int|
            0 <= i < self.patterns.len() ==> found_at(
                (#[trigger] self.patterns[i]).0,
                self.patterns[i].1,
                data,
            )
    }
}

/// Bytes to look for: not more than the limit allows.
pub open spec fn bounded_data(data: Seq<u8>) -> FilterResult<Seq<u8>> {
    if data.len() > MAX_DATA_SIZE {
        Err(FilterError::CreateAccountState("data too large"))
    } else {
        Ok(data)
    }
}

fn bound_data(data: Vec<u8>) -> (r: FilterResult<Vec<u8>>)
    ensures
        agrees(r, bounded_data(data@)),
{
    if data.len() > MAX_DATA_SIZE {
        Err(FilterError::CreateAccountState("data too large"))
    } else {
        Ok(data)
    }
}

/// What a decoder made of a text, taken as bytes to look for.
pub open spec fn accepted_data(decoded: Option<Seq<u8>>, invalid: &'static str) -> FilterResult<
    Seq<u8>,
> {
    match decoded {
        None => Err(FilterError::CreateAccountState(invalid)),
        Some(data) => bounded_data(data),
    }
}

pub fn accept_data(decoded: Option<Vec<u8>>, invalid: &'static str) -> (r: FilterResult<Vec<u8>>)
    ensures
        agrees(
            r,
            accepted_data(
                match decoded {
                    Some(data) => Some(data@),
                    None => None,
                },
                invalid,
            ),
        ),
{
    match decoded {
        None => Err(FilterError::CreateAccountState(invalid)),
        Some(data) => bound_data(data),
    }
}

/// The bytes that a request says to look for, directly or as a text.
pub open spec fn requested_data(data: Option<AccountsFilterMemcmpOneof>) -> FilterResult<Seq<u8>> {
    match data {
        None => Err(FilterError::CreateAccountState("data for memcmp should be defined")),
        Some(AccountsFilterMemcmpOneof::Bytes(data)) => bounded_data(data@),
        Some(AccountsFilterMemcmpOneof::Base58(text)) => {
            if byte_len(text@) > MAX_DATA_BASE58_SIZE {
                Err(FilterError::CreateAccountState("data too large"))
            } else {
                accepted_data(base58_bytes(text@), "invalid base58")
            }
        },
        Some(AccountsFilterMemcmpOneof::Base64(text)) => {
            if byte_len(text@) > MAX_DATA_BASE64_SIZE {
                Err(FilterError::CreateAccountState("data too large"))
            } else {
                accepted_data(base64_bytes(text@), "invalid base64")
            }
        },
    }
}

fn read_data(data: &Option<AccountsFilterMemcmpOneof>) -> (r: FilterResult<Vec<u8>>)
    ensures
        agrees(r, requested_data(*data)),
{
    match data {
        None => Err(FilterError::CreateAccountState("data for memcmp should be defined")),
        Some(AccountsFilterMemcmpOneof::Bytes(data)) => {
            let copy = data.clone();
            assert(copy@ =~= data@);
            bound_data(copy)
        },
        Some(AccountsFilterMemcmpOneof::Base58(text)) => {
            if text.as_str().len() > MAX_DATA_BASE58_SIZE {
                Err(FilterError::CreateAccountState("data too large"))
            } else {
                accept_data(decode_base58(text.as_str()), "invalid base58")
            }
        },
        Some(AccountsFilterMemcmpOneof::Base64(text)) => {
            if text.as_str().len() > MAX_DATA_BASE64_SIZE {
                Err(FilterError::CreateAccountState("data too large"))
            } else {
                accept_data(decode_base64(text.as_str()), "invalid base64")
            }
        },
    }
}

/// The conditions with one more.
pub open spec fn extended(
    state: StateView,
    filter: SubscribeRequestFilterAccountsFilter,
) -> FilterResult<StateView> {
    match filter.filter {
        None => Err(FilterError::CreateAccountState("filter should be defined")),
        Some(AccountsFilterDataOneof::Memcmp(memcmp)) => match requested_data(memcmp.data) {
            Err(e) => Err(e),
            Ok(data) => Ok(
                StateView {
                    patterns: state.patterns.push((in_memory(memcmp.offset), data)),
                    ..state
                },
            ),
        },
        Some(AccountsFilterDataOneof::Datasize(datasize)) => {
            if state.datasize is Some {
                Err(FilterError::CreateAccountState("datasize used more than once"))
            } else {
                Ok(StateView { datasize: Some(in_memory(datasize)), ..state })
            }
        },
        Some(AccountsFilterDataOneof::TokenAccountState(value)) => {
            if value {
                Ok(StateView { token_account_state: true, ..state })
            } else {
                Err(
                    FilterError::CreateAccountState("token_account_state only allowed to be true"),
                )
            }
        },
        Some(AccountsFilterDataOneof::Lamports(lamports)) => match lamports.cmp {
            None => Err(FilterError::CreateAccountState("cmp for lamports should be defined")),
            Some(cmp) => Ok(
                StateView {
                    lamports: state.lamports.push(FilterAccountsLamports::requested(cmp)),
                    ..state
                },
            ),
        },
    }
}

/// The conditions of a list, or what is wrong with the first that is refused.
pub open spec fn gathered(filters: Seq<SubscribeRequestFilterAccountsFilter>) -> FilterResult<
    StateView,
>
    decreases filters.len(),
{
    if filters.len() == 0 {
        Ok(StateView::none())
    } else {
        match gathered(filters.drop_last()) {
            Err(e) => Err(e),
            Ok(state) => extended(state, filters.last()),
        }
    }
}

/// The conditions that a request asks for.
pub open spec fn requested_state(
    filters: Seq<SubscribeRequestFilterAccountsFilter>,
) -> FilterResult<StateView> {
    if filters.len() > MAX_FILTERS {
        Err(FilterError::CreateAccountStateMaxFilters { max: MAX_FILTERS })
    } else {
        gathered(filters)
    }
}

/// A requested condition holds of an account with this data and these lamports.
pub open spec fn condition_holds(
    filter: SubscribeRequestFilterAccountsFilter,
    data: Seq<u8>,
    lamports: u64,
) -> bool {
    match filter.filter {
        None => false,
        Some(AccountsFilterDataOneof::Memcmp(memcmp)) => match requested_data(memcmp.data) {
            Err(_) => false,
            Ok(bytes) => found_at(in_memory(memcmp.offset), bytes, data),
        },
        Some(AccountsFilterDataOneof::Datasize(datasize)) => data.len() == in_memory(datasize),
        Some(AccountsFilterDataOneof::TokenAccountState(value)) => value && valid_token_account(
            data,
        ),
        Some(AccountsFilterDataOneof::Lamports(condition)) => match condition.cmp {
            None => false,
            Some(cmp) => FilterAccountsLamports::requested(cmp).holds(lamports),
        },
    }
}

/// An error among the first conditions is the error of all of them.
pub proof fn lemma_gathered_error(filters: Seq<SubscribeRequestFilterAccountsFilter>, i: int)
    requires
        0 <= i <= filters.len(),
        gathered(filters.take(i)) is Err,
    ensures
        gathered(filters) == gathered(filters.take(i)),
    decreases filters.len() - i,
{
    if i < filters.len() {
        assert(filters.take(i + 1).drop_last() =~= filters.take(i));
        lemma_gathered_error(filters, i + 1);
    } else {
        assert(filters.take(i) =~= filters);
    }
}

/// One condition more holds where the others do and it does.
proof fn lemma_extended_holds(
    state: StateView,
    filter: SubscribeRequestFilterAccountsFilter,
    data: Seq<u8>,
    lamports: u64,
)
    requires
        extended(state, filter) is Ok,
    ensures
        extended(state, filter)->Ok_0.holds(data, lamports) <==> state.holds(data, lamports)
            && condition_holds(filter, data, lamports),
        !extended(state, filter)->Ok_0.is_empty(),
{
    let more = extended(state, filter)->Ok_0;
    if more.holds(data, lamports) {
        assert forall|i: int| 0 <= i < state.lamports.len() implies (
        #[trigger] state.lamports[i]).holds(lamports) by {
            assert(more.lamports[i].holds(lamports));
        }
        assert forall|i: int| 0 <= i < state.patterns.len() implies found_at(
            (#[trigger] state.patterns[i]).0,
            state.patterns[i].1,
            data,
        ) by {
            assert(found_at(more.patterns[i].0, more.patterns[i].1, data));
        }
        if more.lamports.len() > state.lamports.len() {
            assert(more.lamports[more.lamports.len() - 1].holds(lamports));
        }
        if more.patterns.len() > state.patterns.len() {
            let last = more.patterns[more.patterns.len() - 1];
            assert(found_at(last.0, last.1, data));
        }
    }
}

/// Conditions that were accepted hold of an account where each of them does, and there are none
/// only where none was asked for.
pub proof fn lemma_every_condition_holds(
    filters: Seq<SubscribeRequestFilterAccountsFilter>,
    data: Seq<u8>,
    lamports: u64,
)
    requires
        requested_state(filters) is Ok,
    ensures
        requested_state(filters)->Ok_0.holds(data, lamports) <==> forall|i: int|
            0 <= i < filters.len() ==> condition_holds(#[trigger] filters[i], data, lamports),
        requested_state(filters)->Ok_0.is_empty() <==> filters.len() == 0,
    decreases filters.len(),
{
    if filters.len() > 0 {
        let rest = filters.drop_last();
        let last = filters.last();
        assert(requested_state(rest) is Ok);
        lemma_every_condition_holds(rest, data, lamports);
        lemma_extended_holds(requested_state(rest)->Ok_0, last, data, lamports);
        assert forall|i: int| 0 <= i < rest.len() implies rest[i] == #[trigger] filters[i] by {}
        assert(filters[filters.len() - 1] == last);
        if forall|i: int|
            0 <= i < rest.len() ==> condition_holds(#[trigger] rest[i], data, lamports) {
            assert forall|i: int| 0 <= i < rest.len() implies condition_holds(
                #[trigger] filters[i],
                data,
                lamports,
            ) by {
                assert(condition_holds(rest[i], data, lamports));
            }
        }
        if forall|i: int|
            0 <= i < filters.len() ==> condition_holds(#[trigger] filters[i], data, lamports) {
            assert forall|i: int| 0 <= i < rest.len() implies condition_holds(
                #[trigger] rest[i],
                data,
                lamports,
            ) by {
                assert(condition_holds(filters[i], data, lamports));
            }
        }
    }
}

/// The conditions of one filter on the content of accounts.
#[derive(Debug)]
pub struct FilterAccountsState {
    patterns: Vec<(usize, Vec<u8>)>,
    datasize: Option<usize>,
    token_account_state: bool,
    lamports: Vec<FilterAccountsLamports>,
}

impl View for FilterAccountsState {
    type V = StateView;

    closed spec fn view(&self) -> StateView {
        StateView {
            patterns: self.patterns@.map_values(|p: (usize, Vec<u8>)| (p.0, p.1@)),
            datasize: self.datasize,
            token_account_state: self.token_account_state,
            lamports: self.lamports@,
        }
    }
}

impl Default for FilterAccountsState {
    fn default() -> (r: Self)
        ensures
            r@ == StateView::none(),
    {
        let r = FilterAccountsState {
            patterns: Vec::new(),
            datasize: None,
            token_account_state: false,
            lamports: Vec::new(),
        };
        assert(r@ =~= StateView::none());
        r
    }
}

impl Clone for FilterAccountsState {
    fn clone(&self) -> (r: Self)
        ensures
            r@ == self@,
    {
        let mut patterns: Vec<(usize, Vec<u8>)> = Vec::new();
        let mut i: usize = 0;
        while i < self.patterns.len()
            invariant
                i <= self.patterns@.len(),
                patterns@.len() == i,
                forall|j: int|
                    0 <= j < i ==> (#[trigger] patterns@[j]).0 == self.patterns@[j].0
                        && patterns@[j].1@ == self.patterns@[j].1@,
            decreases self.patterns@.len() - i,
        {
            let bytes = self.patterns[i].1.clone();
            assert(bytes@ =~= self.patterns@[i as int].1@);
            patterns.push((self.patterns[i].0, bytes));
            i += 1;
        }
        let lamports = self.lamports.clone();
        assert(lamports@ =~= self.lamports@);
        let r = FilterAccountsState {
            patterns,
            datasize: self.datasize,
            token_account_state: self.token_account_state,
            lamports,
        };
        assert(r@ =~= self@);
        r
    }
}

impl FilterAccountsState {
    pub fn new(filters: &[SubscribeRequestFilterAccountsFilter]) -> (r: FilterResult<Self>)
        ensures
            agrees(r, requested_state(filters@)),
    {
        if filters.len() > MAX_FILTERS {
            return Err(FilterError::CreateAccountStateMaxFilters { max: MAX_FILTERS });
        }
        let mut this = FilterAccountsState::default();
        let mut i: usize = 0;
        while i < filters.len()
            invariant
                i <= filters@.len() <= MAX_FILTERS,
                gathered(filters@.take(i as int)) == Ok::<StateView, FilterError>(this@),
            decreases filters@.len() - i,
        {
            assert(filters@.take(i + 1).drop_last() =~= filters@.take(i as int));
            match this.add_condition(&filters[i]) {
                Ok(()) => {},
                Err(e) => {
                    proof {
                        lemma_gathered_error(filters@, i + 1);
                    }
                    return Err(e);
                },
            }
            i += 1;
        }
        assert(filters@.take(i as int) =~= filters@);
        Ok(this)
    }

    fn add_condition(&mut self, filter: &SubscribeRequestFilterAccountsFilter) -> (r: FilterResult<
        (),
    >)
        ensures
            match extended(old(self)@, *filter) {
                Ok(state) => r is Ok && final(self)@ == state,
                Err(e) => r == Err::<(), FilterError>(e),
            },
    {
        match &filter.filter {
            None => Err(FilterError::CreateAccountState("filter should be defined")),
            Some(AccountsFilterDataOneof::Memcmp(memcmp)) => match read_data(&memcmp.data) {
                Err(e) => Err(e),
                Ok(data) => {
                    self.patterns.push((to_memory(memcmp.offset), data));
                    assert(self@ =~= extended(old(self)@, *filter)->Ok_0);
                    Ok(())
                },
            },
            Some(AccountsFilterDataOneof::Datasize(datasize)) => {
                if self.datasize.is_some() {
                    return Err(FilterError::CreateAccountState("datasize used more than once"));
                }
                self.datasize = Some(to_memory(*datasize));
                Ok(())
            },
            Some(AccountsFilterDataOneof::TokenAccountState(value)) => {
                if !*value {
                    return Err(
                        FilterError::CreateAccountState(
                            "token_account_state only allowed to be true",
                        ),
                    );
                }
                self.token_account_state = true;
                Ok(())
            },
            Some(AccountsFilterDataOneof::Lamports(lamports)) => match &lamports.cmp {
                None => Err(FilterError::CreateAccountState("cmp for lamports should be defined")),
                Some(cmp) => {
                    self.lamports.push(FilterAccountsLamports::from(cmp));
                    Ok(())
                },
            },
        }
    }

    pub fn is_empty(&self) -> (r: bool)
        ensures
            r == self@.is_empty(),
    {
        self.patterns.is_empty() && self.datasize.is_none() && !self.token_account_state
            && self.lamports.is_empty()
    }

    /// Tells whether every condition holds of an account with this data and these lamports.
    pub fn is_match(&self, data: &[u8], lamports: u64) -> (r: bool)
        ensures
            r == self@.holds(data@, lamports),
    {
        if let Some(datasize) = self.datasize {
            if data.len() != datasize {
                return false;
            }
        }
        if self.token_account_state && !is_valid_token_account(data) {
            return false;
        }
        let mut i: usize = 0;
        while i < self.lamports.len()
            invariant
                i <= self.lamports@.len(),
                forall|j: int| 0 <= j < i ==> (#[trigger] self.lamports@[j]).holds(lamports),
            decreases self.lamports@.len() - i,
        {
            if !self.lamports[i].is_match(lamports) {
                assert(!self@.lamports[i as int].holds(lamports));
                return false;
            }
            i += 1;
        }
        let mut i: usize = 0;
        while i < self.patterns.len()
            invariant
                i <= self.patterns@.len(),
                forall|j: int|
                    0 <= j < i ==> found_at(
                        (#[trigger] self.patterns@[j]).0,
                        self.patterns@[j].1@,
                        data@,
                    ),
            decreases self.patterns@.len() - i,
        {
            if !is_found_at(self.patterns[i].0, self.patterns[i].1.as_slice(), data) {
                assert(self@.patterns[i as int] == (
                    self.patterns@[i as int].0,
                    self.patterns@[i as int].1@,
                ));
                return false;
            }
            i += 1;
        }
        assert forall|j: int| 0 <= j < self@.patterns.len() implies found_at(
            (#[trigger] self@.patterns[j]).0,
            self@.patterns[j].1,
            data@,
        ) by {
            assert(found_at(self.patterns@[j].0, self.patterns@[j].1@, data@));
        }
        true
    }
}

} // verus!
