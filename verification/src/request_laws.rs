//! Which requests are accepted, and for what reason the others are refused.

use crate::accounts_state::{gathered, lemma_gathered_error, requested_state};
use crate::bindings::{base58_bytes, base64_bytes, pubkey_from_text, signature_from_text};
use crate::data_slice::{each_range, lemma_accepted_ranges, ranges_of, requested_ranges};
use crate::decode::{decoded_pubkeys, each_pubkey, lemma_decoded_pubkeys};
use crate::deshred_filter::{deshred_metrics, DeshredFilterView};
use crate::entries::{each_name, requested_names};
use crate::error::{collected, lemma_collected, FilterError, FilterResult};
use crate::filter::{metrics, FilterView};
use crate::filter_laws::{lemma_accepted_counts, lemma_accepted_deshred_names};
use crate::limits::{
    FilterLimits, FilterLimitsAccounts, FilterLimitsBlocks, FilterLimitsCheckError,
    FilterLimitsDeshredTransactions, FilterLimitsSlots, FilterLimitsTransactions,
};
use crate::message::CommitmentLevel;
use crate::name::{byte_len, FilterNameError, FilterNames};
use crate::pubkey::Pubkey;
use crate::request::{
    AccountsFilterDataOneof, AccountsFilterMemcmpOneof, SubscribeDeshredRequest, SubscribeRequest,
    SubscribeRequestFilterAccounts, SubscribeRequestFilterAccountsFilter,
    SubscribeRequestFilterBlocks, SubscribeRequestFilterDeshredTransactions,
    SubscribeRequestFilterSlots, SubscribeRequestFilterTransactions,
};
use vstd::prelude::*;

verus! {

/// The size of a text is the number of bytes of its encoding.
pub proof fn lemma_text_size(text: Seq<char>)
    requires
        vstd::utf8::encode_utf8(text).len() <= usize::MAX,
    ensures
        byte_len(text) == vstd::utf8::encode_utf8(text).len(),
{
}

/// A list of results collects to the first error among them.
pub proof fn lemma_first_error<A>(results: Seq<FilterResult<A>>, k: int)
    requires
        0 <= k < results.len(),
        results[k] is Err,
        forall|j: int| 0 <= j < k ==> (#[trigger] results[j]) is Ok,
    ensures
        collected(results) == Err::<Seq<A>, FilterError>(results[k]->Err_0),
{
    lemma_collected(results);
    match collected(results) {
        Ok(values) => {
            assert(results[k] == Ok::<A, FilterError>(values[k]));
        },
        Err(e) => {
            let i = choose|i: int|
                {
                    &&& 0 <= i < results.len()
                    &&& #[trigger] results[i] == Err::<A, FilterError>(e)
                    &&& forall|j: int| 0 <= j < i ==> (#[trigger] results[j]) is Ok
                };
            if i < k {
                assert(results[i] is Ok);
            } else if k < i {
                assert(results[k] is Ok);
            }
        },
    }
}

/// A list of texts is read where each is the base58 form of an address that is not rejected; else
/// the first that is not gives the error.
pub proof fn lemma_texts_are_read(texts: Seq<String>, reject: Set<Pubkey>)
    ensures
        ({
            let r = decoded_pubkeys(texts, reject);
            &&& r is Ok <==> forall|k: int|
                #![trigger texts[k]]
                0 <= k < texts.len() ==> {
                    &&& pubkey_from_text(texts[k]@) is Ok
                    &&& !reject.contains(
                        Pubkey { bytes: pubkey_from_text(texts[k]@)->Ok_0 },
                    )
                }
            &&& forall|k: int|
                #![trigger texts[k]]
                0 <= k < texts.len() && (forall|j: int|
                    #![trigger texts[j]]
                    0 <= j < k ==> {
                        &&& pubkey_from_text(texts[j]@) is Ok
                        &&& !reject.contains(
                            Pubkey { bytes: pubkey_from_text(texts[j]@)->Ok_0 },
                        )
                    }) ==> {
                    &&& pubkey_from_text(texts[k]@) is Err ==> r is Err && r->Err_0
                        == FilterError::InvalidPubkey(pubkey_from_text(texts[k]@)->Err_0)
                    &&& pubkey_from_text(texts[k]@) is Ok && reject.contains(
                        Pubkey { bytes: pubkey_from_text(texts[k]@)->Ok_0 },
                    ) ==> r is Err && r->Err_0 == FilterError::LimitsCheck(
                        FilterLimitsCheckError::PubkeyReject {
                            pubkey: Pubkey { bytes: pubkey_from_text(texts[k]@)->Ok_0 },
                        },
                    )
                }
        }),
{
    lemma_decoded_pubkeys(texts, reject);
    let results = each_pubkey(texts, reject);
    assert forall|k: int| 0 <= k < texts.len() implies ((#[trigger] results[k]) is Ok <==> {
        &&& pubkey_from_text(texts[k]@) is Ok
        &&& !reject.contains(Pubkey { bytes: pubkey_from_text(texts[k]@)->Ok_0 })
    }) by {}
    assert forall|k: int|
        #![trigger texts[k]]
        0 <= k < texts.len() && (forall|j: int|
            #![trigger texts[j]]
            0 <= j < k ==> {
                &&& pubkey_from_text(texts[j]@) is Ok
                &&& !reject.contains(Pubkey { bytes: pubkey_from_text(texts[j]@)->Ok_0 })
            }) && results[k] is Err implies decoded_pubkeys(texts, reject) == Err::<
        Seq<Pubkey>,
        FilterError,
    >(results[k]->Err_0) by {
        assert forall|j: int| 0 <= j < k implies (#[trigger] results[j]) is Ok by {
            assert(pubkey_from_text(texts[j]@) is Ok);
        }
        lemma_first_error(results, k);
    }
}

/// A filter on transactions is accepted exactly where it asks for something, or may ask for
/// everything: that it is about votes or about failures or names an account is enough; none of
/// its lists is longer than allowed, its name is short enough, the signature is one, and every
/// text is an address, of those to include none that is rejected. Of several faults the first in
/// this order is the reason given.
pub proof fn lemma_transactions_filters_accepted(
    name: Seq<char>,
    asked: SubscribeRequestFilterTransactions,
    limits: FilterLimitsTransactions,
    names: FilterNames,
)
    ensures
        ({
            let r = crate::transactions::requested_filter(name, asked, limits, names);
            let allowed = limits.any || asked.vote is Some || asked.failed is Some
                || asked.account_include@.len() > 0
                || asked.account_exclude@.len() > 0 || asked.account_required@.len() > 0;
            let includes = asked.account_include@.len() <= limits.account_include_max;
            let excludes = asked.account_exclude@.len() <= limits.account_exclude_max;
            let requires_few = asked.account_required@.len() <= limits.account_required_max;
            let short = byte_len(name) <= names.name_size_limit;
            let signed = asked.signature is Some ==> signature_from_text(asked.signature->0@) is Ok;
            let plain = allowed && includes && excludes && requires_few && short && signed;
            let all_included = forall|k: int|
                #![trigger asked.account_include@[k]]
                0 <= k < asked.account_include@.len() ==> {
                    &&& pubkey_from_text(asked.account_include@[k]@) is Ok
                    &&& !limits.account_include_reject@.contains(
                        Pubkey { bytes: pubkey_from_text(asked.account_include@[k]@)->Ok_0 },
                    )
                };
            let all_excluded = forall|k: int|
                #![trigger asked.account_exclude@[k]]
                0 <= k < asked.account_exclude@.len()
                    ==> pubkey_from_text(asked.account_exclude@[k]@) is Ok;
            let all_required = forall|k: int|
                #![trigger asked.account_required@[k]]
                0 <= k < asked.account_required@.len()
                    ==> pubkey_from_text(asked.account_required@[k]@) is Ok;
            &&& r is Ok <==> plain && all_included && all_excluded && all_required
            &&& r is Ok ==> r->Ok_0.0 == name
            &&& !allowed ==> r is Err && r->Err_0 == FilterError::LimitsCheck(
                FilterLimitsCheckError::Any,
            )
            &&& allowed && !includes ==> r is Err && r->Err_0 == FilterError::LimitsCheck(
                FilterLimitsCheckError::MaxPubkey { max: limits.account_include_max },
            )
            &&& allowed && includes && !excludes ==> r is Err && r->Err_0
                == FilterError::LimitsCheck(
                FilterLimitsCheckError::MaxPubkey { max: limits.account_exclude_max },
            )
            &&& allowed && includes && excludes && !requires_few ==> r is Err && r->Err_0
                == FilterError::LimitsCheck(
                FilterLimitsCheckError::MaxPubkey { max: limits.account_required_max },
            )
            &&& allowed && includes && excludes && requires_few && !short ==> r is Err
                && r->Err_0 == FilterError::Name(
                FilterNameError::Oversized {
                    limit: names.name_size_limit,
                    size: byte_len(name),
                },
            )
            &&& allowed && includes && excludes && requires_few && short && !signed ==> r is Err
                && r->Err_0 == FilterError::InvalidSignature(
                signature_from_text(asked.signature->0@)->Err_0,
            )
            &&& forall|k: int|
                #![trigger asked.account_include@[k]]
                plain && 0 <= k < asked.account_include@.len() && (forall|j: int|
                    #![trigger asked.account_include@[j]]
                    0 <= j < k ==> {
                        &&& pubkey_from_text(asked.account_include@[j]@) is Ok
                        &&& !limits.account_include_reject@.contains(
                            Pubkey { bytes: pubkey_from_text(asked.account_include@[j]@)->Ok_0 },
                        )
                    }) ==> {
                    &&& pubkey_from_text(asked.account_include@[k]@) is Err ==> r is Err && r->Err_0
                        == FilterError::InvalidPubkey(
                            pubkey_from_text(asked.account_include@[k]@)->Err_0,
                        )
                    &&& pubkey_from_text(asked.account_include@[k]@) is Ok
                        && limits.account_include_reject@.contains(
                        Pubkey { bytes: pubkey_from_text(asked.account_include@[k]@)->Ok_0 },
                    ) ==> r is Err && r->Err_0 == FilterError::LimitsCheck(
                        FilterLimitsCheckError::PubkeyReject {
                            pubkey: Pubkey {
                                bytes: pubkey_from_text(asked.account_include@[k]@)->Ok_0,
                            },
                        },
                    )
                }
            &&& forall|k: int|
                #![trigger asked.account_exclude@[k]]
                plain && all_included && 0 <= k < asked.account_exclude@.len() && (forall|j: int|
                    #![trigger asked.account_exclude@[j]]
                    0 <= j < k ==> pubkey_from_text(asked.account_exclude@[j]@) is Ok) ==> {
                    &&& pubkey_from_text(asked.account_exclude@[k]@) is Err ==> r is Err && r->Err_0
                        == FilterError::InvalidPubkey(
                            pubkey_from_text(asked.account_exclude@[k]@)->Err_0,
                        )
                }
            &&& forall|k: int|
                #![trigger asked.account_required@[k]]
                plain && all_included && all_excluded
                    && 0 <= k < asked.account_required@.len() && (forall|j: int|
                    #![trigger asked.account_required@[j]]
                    0 <= j < k ==> pubkey_from_text(asked.account_required@[j]@) is Ok) ==> {
                    &&& pubkey_from_text(asked.account_required@[k]@) is Err ==> r is Err
                        && r->Err_0
                        == FilterError::InvalidPubkey(
                            pubkey_from_text(asked.account_required@[k]@)->Err_0,
                        )
                }
        }),
{
    lemma_texts_are_read(asked.account_include@, limits.account_include_reject@);
    lemma_texts_are_read(asked.account_exclude@, Set::empty());
    lemma_texts_are_read(asked.account_required@, Set::empty());
}

/// A filter on received transactions is accepted exactly where it asks for something, or may ask
/// for everything: that it is about votes or names an account is enough; none of its lists is
/// longer than allowed, its name is short enough, and every text is an address, of those to
/// include none that is rejected. Of several faults the first in this order is the reason given.
pub proof fn lemma_received_transactions_filters_accepted(
    name: Seq<char>,
    asked: SubscribeRequestFilterDeshredTransactions,
    limits: FilterLimitsDeshredTransactions,
    names: FilterNames,
)
    ensures
        ({
            let r = crate::deshred_transactions::requested_filter(name, asked, limits, names);
            let allowed = limits.any || asked.vote is Some  || asked.account_include@.len() > 0
                || asked.account_exclude@.len() > 0 || asked.account_required@.len() > 0;
            let includes = asked.account_include@.len() <= limits.account_include_max;
            let excludes = asked.account_exclude@.len() <= limits.account_exclude_max;
            let requires_few = asked.account_required@.len() <= limits.account_required_max;
            let short = byte_len(name) <= names.name_size_limit;
            let plain = allowed && includes && excludes && requires_few && short;
            let all_included = forall|k: int|
                #![trigger asked.account_include@[k]]
                0 <= k < asked.account_include@.len() ==> {
                    &&& pubkey_from_text(asked.account_include@[k]@) is Ok
                    &&& !limits.account_include_reject@.contains(
                        Pubkey { bytes: pubkey_from_text(asked.account_include@[k]@)->Ok_0 },
                    )
                };
            let all_excluded = forall|k: int|
                #![trigger asked.account_exclude@[k]]
                0 <= k < asked.account_exclude@.len()
                    ==> pubkey_from_text(asked.account_exclude@[k]@) is Ok;
            let all_required = forall|k: int|
                #![trigger asked.account_required@[k]]
                0 <= k < asked.account_required@.len()
                    ==> pubkey_from_text(asked.account_required@[k]@) is Ok;
            &&& r is Ok <==> plain && all_included && all_excluded && all_required
            &&& r is Ok ==> r->Ok_0.0 == name
            &&& !allowed ==> r is Err && r->Err_0 == FilterError::LimitsCheck(
                FilterLimitsCheckError::Any,
            )
            &&& allowed && !includes ==> r is Err && r->Err_0 == FilterError::LimitsCheck(
                FilterLimitsCheckError::MaxPubkey { max: limits.account_include_max },
            )
            &&& allowed && includes && !excludes ==> r is Err && r->Err_0
                == FilterError::LimitsCheck(
                FilterLimitsCheckError::MaxPubkey { max: limits.account_exclude_max },
            )
            &&& allowed && includes && excludes && !requires_few ==> r is Err && r->Err_0
                == FilterError::LimitsCheck(
                FilterLimitsCheckError::MaxPubkey { max: limits.account_required_max },
            )
            &&& allowed && includes && excludes && requires_few && !short ==> r is Err
                && r->Err_0 == FilterError::Name(
                FilterNameError::Oversized {
                    limit: names.name_size_limit,
                    size: byte_len(name),
                },
            )
            &&& forall|k: int|
                #![trigger asked.account_include@[k]]
                plain && 0 <= k < asked.account_include@.len() && (forall|j: int|
                    #![trigger asked.account_include@[j]]
                    0 <= j < k ==> {
                        &&& pubkey_from_text(asked.account_include@[j]@) is Ok
                        &&& !limits.account_include_reject@.contains(
                            Pubkey { bytes: pubkey_from_text(asked.account_include@[j]@)->Ok_0 },
                        )
                    }) ==> {
                    &&& pubkey_from_text(asked.account_include@[k]@) is Err ==> r is Err && r->Err_0
                        == FilterError::InvalidPubkey(
                            pubkey_from_text(asked.account_include@[k]@)->Err_0,
                        )
                    &&& pubkey_from_text(asked.account_include@[k]@) is Ok
                        && limits.account_include_reject@.contains(
                        Pubkey { bytes: pubkey_from_text(asked.account_include@[k]@)->Ok_0 },
                    ) ==> r is Err && r->Err_0 == FilterError::LimitsCheck(
                        FilterLimitsCheckError::PubkeyReject {
                            pubkey: Pubkey {
                                bytes: pubkey_from_text(asked.account_include@[k]@)->Ok_0,
                            },
                        },
                    )
                }
            &&& forall|k: int|
                #![trigger asked.account_exclude@[k]]
                plain && all_included && 0 <= k < asked.account_exclude@.len() && (forall|j: int|
                    #![trigger asked.account_exclude@[j]]
                    0 <= j < k ==> pubkey_from_text(asked.account_exclude@[j]@) is Ok) ==> {
                    &&& pubkey_from_text(asked.account_exclude@[k]@) is Err ==> r is Err && r->Err_0
                        == FilterError::InvalidPubkey(
                            pubkey_from_text(asked.account_exclude@[k]@)->Err_0,
                        )
                }
            &&& forall|k: int|
                #![trigger asked.account_required@[k]]
                plain && all_included && all_excluded
                    && 0 <= k < asked.account_required@.len() && (forall|j: int|
                    #![trigger asked.account_required@[j]]
                    0 <= j < k ==> pubkey_from_text(asked.account_required@[j]@) is Ok) ==> {
                    &&& pubkey_from_text(asked.account_required@[k]@) is Err ==> r is Err
                        && r->Err_0
                        == FilterError::InvalidPubkey(
                            pubkey_from_text(asked.account_required@[k]@)->Err_0,
                        )
                }
        }),
{
    lemma_texts_are_read(asked.account_include@, limits.account_include_reject@);
    lemma_texts_are_read(asked.account_exclude@, Set::empty());
    lemma_texts_are_read(asked.account_required@, Set::empty());
}

/// A filter on blocks is accepted exactly where it names accounts, or need not, and not more than
/// allowed; hands on only parts of blocks that may be handed on, where accounts and entries go
/// together and transactions are handed on unless it says otherwise; its name is short enough;
/// and every text is an address that is not rejected. Of several faults the first in this order is
/// the reason given.
pub proof fn lemma_blocks_filters_accepted(
    name: Seq<char>,
    asked: SubscribeRequestFilterBlocks,
    limits: FilterLimitsBlocks,
    names: FilterNames,
)
    ensures
        ({
            let r = crate::blocks::requested_filter(name, asked, limits, names);
            let allowed = limits.account_include_any || asked.account_include@.len() > 0;
            let few = asked.account_include@.len() <= limits.account_include_max;
            let transactions = limits.include_transactions || asked.include_transactions == Some(
                false,
            );
            let accounts = limits.include_accounts || asked.include_accounts != Some(true);
            let entries = limits.include_accounts || asked.include_entries != Some(true);
            let short = byte_len(name) <= names.name_size_limit;
            let plain = allowed && few && transactions && accounts && entries && short;
            &&& r is Ok <==> plain && forall|k: int|
                #![trigger asked.account_include@[k]]
                0 <= k < asked.account_include@.len() ==> {
                    &&& pubkey_from_text(asked.account_include@[k]@) is Ok
                    &&& !limits.account_include_reject@.contains(
                        Pubkey { bytes: pubkey_from_text(asked.account_include@[k]@)->Ok_0 },
                    )
                }
            &&& r is Ok ==> r->Ok_0.0 == name
            &&& !allowed ==> r is Err && r->Err_0 == FilterError::LimitsCheck(
                FilterLimitsCheckError::Any,
            )
            &&& allowed && !few ==> r is Err && r->Err_0 == FilterError::LimitsCheck(
                FilterLimitsCheckError::MaxPubkey { max: limits.account_include_max },
            )
            &&& allowed && few && !transactions ==> r is Err && r->Err_0
                == FilterError::CreateBlocksNotAllowed("transactions")
            &&& allowed && few && transactions && !accounts ==> r is Err && r->Err_0
                == FilterError::CreateBlocksNotAllowed("accounts")
            &&& allowed && few && transactions && accounts && !entries ==> r is Err && r->Err_0
                == FilterError::CreateBlocksNotAllowed("entries")
            &&& allowed && few && transactions && accounts && entries && !short ==> r is Err
                && r->Err_0 == FilterError::Name(
                FilterNameError::Oversized {
                    limit: names.name_size_limit,
                    size: byte_len(name),
                },
            )
            &&& forall|k: int|
                #![trigger asked.account_include@[k]]
                plain && 0 <= k < asked.account_include@.len() && (forall|j: int|
                    #![trigger asked.account_include@[j]]
                    0 <= j < k ==> {
                        &&& pubkey_from_text(asked.account_include@[j]@) is Ok
                        &&& !limits.account_include_reject@.contains(
                            Pubkey { bytes: pubkey_from_text(asked.account_include@[j]@)->Ok_0 },
                        )
                    }) ==> {
                    &&& pubkey_from_text(asked.account_include@[k]@) is Err ==> r is Err && r->Err_0
                        == FilterError::InvalidPubkey(
                            pubkey_from_text(asked.account_include@[k]@)->Err_0,
                        )
                    &&& pubkey_from_text(asked.account_include@[k]@) is Ok
                        && limits.account_include_reject@.contains(
                        Pubkey { bytes: pubkey_from_text(asked.account_include@[k]@)->Ok_0 },
                    ) ==> r is Err && r->Err_0 == FilterError::LimitsCheck(
                        FilterLimitsCheckError::PubkeyReject {
                            pubkey: Pubkey {
                                bytes: pubkey_from_text(asked.account_include@[k]@)->Ok_0,
                            },
                        },
                    )
                }
        }),
{
    lemma_texts_are_read(asked.account_include@, limits.account_include_reject@);
}

/// A filter on accounts is accepted exactly where its name is short enough; it names an account or
/// an owner, or need not; not more of either than allowed; every text is an address that is not
/// rejected; and its conditions on the content are accepted. Of several faults the first in this
/// order is the reason given.
pub proof fn lemma_accounts_filters_accepted(
    name: Seq<char>,
    asked: SubscribeRequestFilterAccounts,
    limits: FilterLimitsAccounts,
    names: FilterNames,
)
    ensures
        ({
            let r = crate::accounts::requested_filter(name, asked, limits, names);
            let state = requested_state(asked.filters@);
            let short = byte_len(name) <= names.name_size_limit;
            let allowed = limits.any || asked.account@.len() > 0 || asked.owner@.len() > 0;
            let few_accounts = asked.account@.len() <= limits.account_max;
            let few_owners = asked.owner@.len() <= limits.owner_max;
            let plain = short && allowed && few_accounts && few_owners;
            let all_accounts = forall|k: int|
                #![trigger asked.account@[k]]
                0 <= k < asked.account@.len() ==> {
                    &&& pubkey_from_text(asked.account@[k]@) is Ok
                    &&& !limits.account_reject@.contains(
                        Pubkey { bytes: pubkey_from_text(asked.account@[k]@)->Ok_0 },
                    )
                };
            let all_owners = forall|k: int|
                #![trigger asked.owner@[k]]
                0 <= k < asked.owner@.len() ==> {
                    &&& pubkey_from_text(asked.owner@[k]@) is Ok
                    &&& !limits.owner_reject@.contains(
                        Pubkey { bytes: pubkey_from_text(asked.owner@[k]@)->Ok_0 },
                    )
                };
            &&& r is Ok <==> plain && all_accounts && all_owners && state is Ok
            &&& r is Ok ==> r->Ok_0.0 == name
            &&& plain && all_accounts && all_owners && state is Err ==> r is Err && r->Err_0
                == state->Err_0
            &&& !short ==> r is Err && r->Err_0 == FilterError::Name(
                FilterNameError::Oversized {
                    limit: names.name_size_limit,
                    size: byte_len(name),
                },
            )
            &&& short && !allowed ==> r is Err && r->Err_0 == FilterError::LimitsCheck(
                FilterLimitsCheckError::Any,
            )
            &&& short && allowed && !few_accounts ==> r is Err && r->Err_0
                == FilterError::LimitsCheck(
                FilterLimitsCheckError::MaxPubkey { max: limits.account_max },
            )
            &&& short && allowed && few_accounts && !few_owners ==> r is Err && r->Err_0
                == FilterError::LimitsCheck(
                FilterLimitsCheckError::MaxPubkey { max: limits.owner_max },
            )
            &&& forall|k: int|
                #![trigger asked.account@[k]]
                plain && 0 <= k < asked.account@.len() && (forall|j: int|
                    #![trigger asked.account@[j]]
                    0 <= j < k ==> {
                        &&& pubkey_from_text(asked.account@[j]@) is Ok
                        &&& !limits.account_reject@.contains(
                            Pubkey { bytes: pubkey_from_text(asked.account@[j]@)->Ok_0 },
                        )
                    }) ==> {
                    &&& pubkey_from_text(asked.account@[k]@) is Err ==> r is Err && r->Err_0
                        == FilterError::InvalidPubkey(pubkey_from_text(asked.account@[k]@)->Err_0)
                    &&& pubkey_from_text(asked.account@[k]@) is Ok
                        && limits.account_reject@.contains(
                        Pubkey { bytes: pubkey_from_text(asked.account@[k]@)->Ok_0 },
                    ) ==> r is Err && r->Err_0 == FilterError::LimitsCheck(
                        FilterLimitsCheckError::PubkeyReject {
                            pubkey: Pubkey { bytes: pubkey_from_text(asked.account@[k]@)->Ok_0 },
                        },
                    )
                }
            &&& forall|k: int|
                #![trigger asked.owner@[k]]
                plain && all_accounts && 0 <= k < asked.owner@.len() && (forall|j: int|
                    #![trigger asked.owner@[j]]
                    0 <= j < k ==> {
                        &&& pubkey_from_text(asked.owner@[j]@) is Ok
                        &&& !limits.owner_reject@.contains(
                            Pubkey { bytes: pubkey_from_text(asked.owner@[j]@)->Ok_0 },
                        )
                    }) ==> {
                    &&& pubkey_from_text(asked.owner@[k]@) is Err ==> r is Err && r->Err_0
                        == FilterError::InvalidPubkey(pubkey_from_text(asked.owner@[k]@)->Err_0)
                    &&& pubkey_from_text(asked.owner@[k]@) is Ok && limits.owner_reject@.contains(
                        Pubkey { bytes: pubkey_from_text(asked.owner@[k]@)->Ok_0 },
                    ) ==> r is Err && r->Err_0 == FilterError::LimitsCheck(
                        FilterLimitsCheckError::PubkeyReject {
                            pubkey: Pubkey { bytes: pubkey_from_text(asked.owner@[k]@)->Ok_0 },
                        },
                    )
                }
        }),
{
    lemma_texts_are_read(asked.account@, limits.account_reject@);
    lemma_texts_are_read(asked.owner@, limits.owner_reject@);
}

/// Conditions are gathered where each is whole and at most one of them is on the length, which is
/// then the one that is kept.
proof fn lemma_gathered_where_whole(filters: Seq<SubscribeRequestFilterAccountsFilter>)
    ensures
        gathered(filters) is Ok <==> {
            &&& forall|j: int|
                0 <= j < filters.len() ==> match (#[trigger] filters[j]).filter {
                    None => false,
                    Some(AccountsFilterDataOneof::Memcmp(memcmp)) => match memcmp.data {
                        None => false,
                        Some(AccountsFilterMemcmpOneof::Bytes(bytes)) => bytes@.len() <= 128,
                        Some(AccountsFilterMemcmpOneof::Base58(text)) => {
                            &&& byte_len(text@) <= 175
                            &&& base58_bytes(text@) is Some
                            &&& base58_bytes(text@)->0.len() <= 128
                        },
                        Some(AccountsFilterMemcmpOneof::Base64(text)) => {
                            &&& byte_len(text@) <= 172
                            &&& base64_bytes(text@) is Some
                            &&& base64_bytes(text@)->0.len() <= 128
                        },
                    },
                    Some(AccountsFilterDataOneof::Datasize(_)) => true,
                    Some(AccountsFilterDataOneof::TokenAccountState(value)) => value,
                    Some(AccountsFilterDataOneof::Lamports(condition)) => condition.cmp is Some,
                }
            &&& forall|a: int, b: int|
                0 <= a < b < filters.len() ==> !{
                    &&& (#[trigger] filters[a]).filter is Some && filters[a].filter->0 is Datasize
                    &&& (#[trigger] filters[b]).filter is Some && filters[b].filter->0 is Datasize
                }
        },
        gathered(filters) is Ok ==> (gathered(filters)->Ok_0.datasize is Some <==> exists|j: int|
            {
                &&& 0 <= j < filters.len()
                &&& (#[trigger] filters[j]).filter is Some
                &&& filters[j].filter->0 is Datasize
            }),
    decreases filters.len(),
{
    if filters.len() > 0 {
        let rest = filters.drop_last();
        let n = filters.len() - 1;
        lemma_gathered_where_whole(rest);
        assert forall|j: int| 0 <= j < rest.len() implies rest[j] == #[trigger] filters[j] by {}
        assert forall|j: int| 0 <= j < rest.len() implies #[trigger] rest[j] == filters[j] by {}
        assert(filters[n] == filters.last());
        if gathered(rest) is Ok && gathered(rest)->Ok_0.datasize is Some {
            let a = choose|j: int|
                {
                    &&& 0 <= j < rest.len()
                    &&& (#[trigger] rest[j]).filter is Some
                    &&& rest[j].filter->0 is Datasize
                };
            assert(filters[a].filter is Some && filters[a].filter->0 is Datasize);
        }
        if filters[n].filter is Some && filters[n].filter->0 is Datasize && gathered(rest) is Ok {
            if gathered(rest)->Ok_0.datasize is None {
                assert forall|a: int| 0 <= a < n implies !((#[trigger] filters[a]).filter is Some
                    && filters[a].filter->0 is Datasize) by {
                    assert(rest[a] == filters[a]);
                }
            }
        }
    }
}

/// Conditions on the content of accounts are accepted exactly where there are at most four; each
/// is defined; bytes to find are given, in a text that is not too long and can be read where they
/// are given as a text, and are not too many; being a token account is not denied; lamports are
/// compared with something; and not more than one is on the length of the data.
pub proof fn lemma_conditions_accepted(filters: Seq<SubscribeRequestFilterAccountsFilter>)
    ensures
        requested_state(filters) is Ok <==> {
            &&& filters.len() <= 4
            &&& forall|j: int|
                0 <= j < filters.len() ==> match (#[trigger] filters[j]).filter {
                    None => false,
                    Some(AccountsFilterDataOneof::Memcmp(memcmp)) => match memcmp.data {
                        None => false,
                        Some(AccountsFilterMemcmpOneof::Bytes(bytes)) => bytes@.len() <= 128,
                        Some(AccountsFilterMemcmpOneof::Base58(text)) => {
                            &&& byte_len(text@) <= 175
                            &&& base58_bytes(text@) is Some
                            &&& base58_bytes(text@)->0.len() <= 128
                        },
                        Some(AccountsFilterMemcmpOneof::Base64(text)) => {
                            &&& byte_len(text@) <= 172
                            &&& base64_bytes(text@) is Some
                            &&& base64_bytes(text@)->0.len() <= 128
                        },
                    },
                    Some(AccountsFilterDataOneof::Datasize(_)) => true,
                    Some(AccountsFilterDataOneof::TokenAccountState(value)) => value,
                    Some(AccountsFilterDataOneof::Lamports(condition)) => condition.cmp is Some,
                }
            &&& forall|a: int, b: int|
                0 <= a < b < filters.len() ==> !{
                    &&& (#[trigger] filters[a]).filter is Some && filters[a].filter->0 is Datasize
                    &&& (#[trigger] filters[b]).filter is Some && filters[b].filter->0 is Datasize
                }
        },
        filters.len() > 4 ==> requested_state(filters) is Err && requested_state(filters)->Err_0
            == (FilterError::CreateAccountStateMaxFilters { max: 4 }),
{
    lemma_gathered_where_whole(filters);
}

/// Where the conditions before one are accepted and it is not, it gives the reason for refusing
/// all of them.
pub proof fn lemma_first_refused_condition(
    filters: Seq<SubscribeRequestFilterAccountsFilter>,
    k: int,
)
    requires
        filters.len() <= 4,
        0 <= k < filters.len(),
        requested_state(filters.take(k)) is Ok,
    ensures
        ({
            let r = requested_state(filters);
            match filters[k].filter {
                None => r is Err && r->Err_0 == FilterError::CreateAccountState(
                    "filter should be defined",
                ),
                Some(AccountsFilterDataOneof::Memcmp(memcmp)) => match memcmp.data {
                    None => r is Err && r->Err_0 == FilterError::CreateAccountState(
                        "data for memcmp should be defined",
                    ),
                    Some(AccountsFilterMemcmpOneof::Bytes(bytes)) => bytes@.len() > 128 ==> r is Err
                        && r->Err_0 == FilterError::CreateAccountState("data too large"),
                    Some(AccountsFilterMemcmpOneof::Base58(text)) => {
                        &&& byte_len(text@) > 175 ==> r is Err && r->Err_0
                            == FilterError::CreateAccountState("data too large")
                        &&& byte_len(text@) <= 175 && base58_bytes(text@) is None ==> r is Err
                            && r->Err_0 == FilterError::CreateAccountState("invalid base58")
                        &&& base58_bytes(text@) is Some && base58_bytes(text@)->0.len() > 128
                            ==> r is Err && r->Err_0 == FilterError::CreateAccountState(
                            "data too large",
                        )
                    },
                    Some(AccountsFilterMemcmpOneof::Base64(text)) => {
                        &&& byte_len(text@) > 172 ==> r is Err && r->Err_0
                            == FilterError::CreateAccountState("data too large")
                        &&& byte_len(text@) <= 172 && base64_bytes(text@) is None ==> r is Err
                            && r->Err_0 == FilterError::CreateAccountState("invalid base64")
                        &&& base64_bytes(text@) is Some && base64_bytes(text@)->0.len() > 128
                            ==> r is Err && r->Err_0 == FilterError::CreateAccountState(
                            "data too large",
                        )
                    },
                },
                Some(AccountsFilterDataOneof::Datasize(_)) => (exists|j: int|
                    {
                        &&& 0 <= j < k
                        &&& (#[trigger] filters[j]).filter is Some
                        &&& filters[j].filter->0 is Datasize
                    }) ==> r is Err && r->Err_0 == FilterError::CreateAccountState(
                    "datasize used more than once",
                ),
                Some(AccountsFilterDataOneof::TokenAccountState(value)) => !value ==> r is Err
                    && r->Err_0 == FilterError::CreateAccountState(
                    "token_account_state only allowed to be true",
                ),
                Some(AccountsFilterDataOneof::Lamports(condition)) => condition.cmp is None
                    ==> r is Err && r->Err_0 == FilterError::CreateAccountState(
                    "cmp for lamports should be defined",
                ),
            }
        }),
{
    let before = filters.take(k);
    lemma_gathered_where_whole(before);
    if exists|j: int|
        {
            &&& 0 <= j < k
            &&& (#[trigger] filters[j]).filter is Some
            &&& filters[j].filter->0 is Datasize
        } {
        let j = choose|j: int|
            {
                &&& 0 <= j < k
                &&& (#[trigger] filters[j]).filter is Some
                &&& filters[j].filter->0 is Datasize
            };
        assert(before[j] == filters[j]);
    }
    assert(filters.take(k + 1).drop_last() =~= before);
    assert(filters.take(k + 1).last() == filters[k]);
    if gathered(filters.take(k + 1)) is Err {
        lemma_gathered_error(filters, k + 1);
    }
}

/// Results of a list are collected where all are values, and else to the first error.
proof fn lemma_all_or_first<T, A>(configs: Seq<T>, results: Seq<FilterResult<A>>, k: int)
    requires
        configs.len() == results.len(),
    ensures
        collected(results) is Ok <==> forall|i: int|
            #![trigger configs[i]]
            0 <= i < configs.len() ==> results[i] is Ok,
        collected(results) is Ok ==> collected(results)->Ok_0.len() == configs.len() && forall|
            i: int,
        |
            #![trigger configs[i]]
            0 <= i < configs.len() ==> collected(results)->Ok_0[i] == results[i]->Ok_0,
        0 <= k < configs.len() && results[k] is Err && (forall|j: int|
            #![trigger configs[j]]
            0 <= j < k ==> results[j] is Ok) ==> collected(results) is Err && collected(
            results,
        )->Err_0 == results[k]->Err_0,
{
    lemma_collected(results);
    assert forall|i: int|
        #![trigger configs[i]]
        0 <= i < configs.len() && collected(results) is Ok implies results[i] == Ok::<
        A,
        FilterError,
    >(collected(results)->Ok_0[i]) by {
        assert(results[i] == Ok::<A, FilterError>(collected(results)->Ok_0[i]));
    }
    if collected(results) is Err {
        let e = collected(results)->Err_0;
        let i = choose|i: int|
            {
                &&& 0 <= i < results.len()
                &&& #[trigger] results[i] == Err::<A, FilterError>(e)
                &&& forall|j: int| 0 <= j < i ==> (#[trigger] results[j]) is Ok
            };
        let config = configs[i];
        assert(!(results[i] is Ok));
    }
    if 0 <= k < configs.len() && results[k] is Err && (forall|j: int|
        #![trigger configs[j]]
        0 <= j < k ==> results[j] is Ok) {
        assert forall|j: int| 0 <= j < k implies (#[trigger] results[j]) is Ok by {
            let config = configs[j];
        }
        lemma_first_error(results, k);
    }
}

/// Filters on accounts are accepted exactly where they are not too many and each of them is; they
/// keep their places. Else the reason is their number or, with a number that is allowed, that of
/// the first that is refused.
pub proof fn lemma_accounts_accepted(
    configs: Seq<(String, SubscribeRequestFilterAccounts)>,
    limits: FilterLimitsAccounts,
    names: FilterNames,
    k: int,
)
    ensures
        ({
            let r = crate::accounts::requested_filters(configs, limits, names);
            &&& r is Ok <==> configs.len() <= limits.max && forall|i: int|
                #![trigger configs[i]]
                0 <= i < configs.len() ==> crate::accounts::requested_filter(
                    configs[i].0@,
                    configs[i].1,
                    limits,
                    names,
                ) is Ok
            &&& r is Ok ==> r->Ok_0.len() == configs.len() && forall|i: int|
                #![trigger configs[i]]
                0 <= i < configs.len() ==> r->Ok_0[i] == crate::accounts::requested_filter(
                    configs[i].0@,
                    configs[i].1,
                    limits,
                    names,
                )->Ok_0
            &&& configs.len() > limits.max ==> r is Err && r->Err_0 == FilterError::LimitsCheck(
                FilterLimitsCheckError::Max { max: limits.max },
            )
            &&& configs.len() <= limits.max && 0 <= k < configs.len()
                && crate::accounts::requested_filter(
                    configs[k].0@,
                    configs[k].1,
                    limits,
                    names,
                ) is Err && (forall|j: int|
                #![trigger configs[j]]
                0 <= j < k ==> crate::accounts::requested_filter(
                    configs[j].0@,
                    configs[j].1,
                    limits,
                    names,
                ) is Ok) ==> r is Err && r->Err_0 == crate::accounts::requested_filter(
                    configs[k].0@,
                    configs[k].1,
                    limits,
                    names,
                )->Err_0
        }),
{
    let results = crate::accounts::each_requested(configs, limits, names);
    lemma_all_or_first(configs, results, k);
    assert forall|i: int|
        #![trigger configs[i]]
        0 <= i < configs.len() implies results[i] == crate::accounts::requested_filter(
                    configs[i].0@,
                    configs[i].1,
                    limits,
                    names,
                ) by {}
}

/// Filters on transactions are accepted exactly where they are not too many and each of them is;
/// they keep their places. Else the reason is their number or, with a number that is allowed, that
/// of the first that is refused.
pub proof fn lemma_transactions_accepted(
    configs: Seq<(String, SubscribeRequestFilterTransactions)>,
    limits: FilterLimitsTransactions,
    names: FilterNames,
    k: int,
)
    ensures
        ({
            let r = crate::transactions::requested_filters(configs, limits, names);
            &&& r is Ok <==> configs.len() <= limits.max && forall|i: int|
                #![trigger configs[i]]
                0 <= i < configs.len() ==> crate::transactions::requested_filter(
                    configs[i].0@,
                    configs[i].1,
                    limits,
                    names,
                ) is Ok
            &&& r is Ok ==> r->Ok_0.len() == configs.len() && forall|i: int|
                #![trigger configs[i]]
                0 <= i < configs.len() ==> r->Ok_0[i] == crate::transactions::requested_filter(
                    configs[i].0@,
                    configs[i].1,
                    limits,
                    names,
                )->Ok_0
            &&& configs.len() > limits.max ==> r is Err && r->Err_0 == FilterError::LimitsCheck(
                FilterLimitsCheckError::Max { max: limits.max },
            )
            &&& configs.len() <= limits.max && 0 <= k < configs.len()
                && crate::transactions::requested_filter(
                    configs[k].0@,
                    configs[k].1,
                    limits,
                    names,
                ) is Err && (forall|j: int|
                #![trigger configs[j]]
                0 <= j < k ==> crate::transactions::requested_filter(
                    configs[j].0@,
                    configs[j].1,
                    limits,
                    names,
                ) is Ok) ==> r is Err && r->Err_0 == crate::transactions::requested_filter(
                    configs[k].0@,
                    configs[k].1,
                    limits,
                    names,
                )->Err_0
        }),
{
    let results = crate::transactions::each_requested(configs, limits, names);
    lemma_all_or_first(configs, results, k);
    assert forall|i: int|
        #![trigger configs[i]]
        0 <= i < configs.len() implies results[i] == crate::transactions::requested_filter(
                    configs[i].0@,
                    configs[i].1,
                    limits,
                    names,
                ) by {}
}

/// Filters on received transactions are accepted exactly where they are not too many and each of
/// them is; they keep their places. Else the reason is their number or, with a number that is
/// allowed, that of the first that is refused.
pub proof fn lemma_received_transactions_accepted(
    configs: Seq<(String, SubscribeRequestFilterDeshredTransactions)>,
    limits: FilterLimitsDeshredTransactions,
    names: FilterNames,
    k: int,
)
    ensures
        ({
            let r = crate::deshred_transactions::requested_filters(configs, limits, names);
            &&& r is Ok <==> configs.len() <= limits.max && forall|i: int|
                #![trigger configs[i]]
                0 <= i < configs.len() ==> crate::deshred_transactions::requested_filter(
                    configs[i].0@,
                    configs[i].1,
                    limits,
                    names,
                ) is Ok
            &&& r is Ok ==> r->Ok_0.len() == configs.len() && forall|i: int|
                #![trigger configs[i]]
                0 <= i < configs.len() ==> r->Ok_0[i]
                    == crate::deshred_transactions::requested_filter(
                    configs[i].0@,
                    configs[i].1,
                    limits,
                    names,
                )->Ok_0
            &&& configs.len() > limits.max ==> r is Err && r->Err_0 == FilterError::LimitsCheck(
                FilterLimitsCheckError::Max { max: limits.max },
            )
            &&& configs.len() <= limits.max && 0 <= k < configs.len()
                && crate::deshred_transactions::requested_filter(
                    configs[k].0@,
                    configs[k].1,
                    limits,
                    names,
                ) is Err && (forall|j: int|
                #![trigger configs[j]]
                0 <= j < k ==> crate::deshred_transactions::requested_filter(
                    configs[j].0@,
                    configs[j].1,
                    limits,
                    names,
                ) is Ok) ==> r is Err && r->Err_0 == crate::deshred_transactions::requested_filter(
                    configs[k].0@,
                    configs[k].1,
                    limits,
                    names,
                )->Err_0
        }),
{
    let results = crate::deshred_transactions::each_requested(configs, limits, names);
    lemma_all_or_first(configs, results, k);
    assert forall|i: int|
        #![trigger configs[i]]
        0 <= i < configs.len() implies results[i] == crate::deshred_transactions::requested_filter(
                    configs[i].0@,
                    configs[i].1,
                    limits,
                    names,
                ) by {}
}

/// Filters on blocks are accepted exactly where they are not too many and each of them is; they
/// keep their places. Else the reason is their number or, with a number that is allowed, that of
/// the first that is refused.
pub proof fn lemma_blocks_accepted(
    configs: Seq<(String, SubscribeRequestFilterBlocks)>,
    limits: FilterLimitsBlocks,
    names: FilterNames,
    k: int,
)
    ensures
        ({
            let r = crate::blocks::requested_filters(configs, limits, names);
            &&& r is Ok <==> configs.len() <= limits.max && forall|i: int|
                #![trigger configs[i]]
                0 <= i < configs.len() ==> crate::blocks::requested_filter(
                    configs[i].0@,
                    configs[i].1,
                    limits,
                    names,
                ) is Ok
            &&& r is Ok ==> r->Ok_0.len() == configs.len() && forall|i: int|
                #![trigger configs[i]]
                0 <= i < configs.len() ==> r->Ok_0[i] == crate::blocks::requested_filter(
                    configs[i].0@,
                    configs[i].1,
                    limits,
                    names,
                )->Ok_0
            &&& configs.len() > limits.max ==> r is Err && r->Err_0 == FilterError::LimitsCheck(
                FilterLimitsCheckError::Max { max: limits.max },
            )
            &&& configs.len() <= limits.max && 0 <= k < configs.len()
                && crate::blocks::requested_filter(
                    configs[k].0@,
                    configs[k].1,
                    limits,
                    names,
                ) is Err && (forall|j: int|
                #![trigger configs[j]]
                0 <= j < k ==> crate::blocks::requested_filter(
                    configs[j].0@,
                    configs[j].1,
                    limits,
                    names,
                ) is Ok) ==> r is Err && r->Err_0 == crate::blocks::requested_filter(
                    configs[k].0@,
                    configs[k].1,
                    limits,
                    names,
                )->Err_0
        }),
{
    let results = crate::blocks::each_requested(configs, limits, names);
    lemma_all_or_first(configs, results, k);
    assert forall|i: int|
        #![trigger configs[i]]
        0 <= i < configs.len() implies results[i] == crate::blocks::requested_filter(
                    configs[i].0@,
                    configs[i].1,
                    limits,
                    names,
                ) by {}
}

/// Filters on slots, on entries and on block metas are accepted exactly where they are not too
/// many and their names are short enough; they keep their places. Else the reason is their number
/// or, with a number that is allowed, the first name that is too long.
pub proof fn lemma_names_accepted<T>(
    slots: Seq<(String, SubscribeRequestFilterSlots)>,
    limits: FilterLimitsSlots,
    configs: Seq<(String, T)>,
    max: usize,
    names: FilterNames,
    k: int,
)
    ensures
        ({
            let r = crate::slots::requested_filters(slots, limits, names);
            &&& r is Ok <==> slots.len() <= limits.max && forall|i: int|
                0 <= i < slots.len() ==> byte_len((#[trigger] slots[i]).0@)
                    <= names.name_size_limit
            &&& r is Ok ==> r->Ok_0.len() == slots.len() && forall|i: int|
                0 <= i < slots.len() ==> r->Ok_0[i].0 == (#[trigger] slots[i]).0@
            &&& slots.len() > limits.max ==> r is Err && r->Err_0 == FilterError::LimitsCheck(
                FilterLimitsCheckError::Max { max: limits.max },
            )
            &&& slots.len() <= limits.max && 0 <= k < slots.len() && byte_len(slots[k].0@)
                > names.name_size_limit && (forall|j: int|
                0 <= j < k ==> byte_len((#[trigger] slots[j]).0@) <= names.name_size_limit)
                ==> r is Err && r->Err_0 == FilterError::Name(
                FilterNameError::Oversized {
                    limit: names.name_size_limit,
                    size: byte_len(slots[k].0@),
                },
            )
        }),
        ({
            let r = requested_names(configs, max, names);
            &&& r is Ok <==> configs.len() <= max && forall|i: int|
                0 <= i < configs.len() ==> byte_len((#[trigger] configs[i]).0@)
                    <= names.name_size_limit
            &&& r is Ok ==> r->Ok_0.len() == configs.len() && forall|i: int|
                0 <= i < configs.len() ==> r->Ok_0[i] == (#[trigger] configs[i]).0@
            &&& configs.len() > max ==> r is Err && r->Err_0 == FilterError::LimitsCheck(
                FilterLimitsCheckError::Max { max },
            )
            &&& configs.len() <= max && 0 <= k < configs.len() && byte_len(configs[k].0@)
                > names.name_size_limit && (forall|j: int|
                0 <= j < k ==> byte_len((#[trigger] configs[j]).0@) <= names.name_size_limit)
                ==> r is Err && r->Err_0 == FilterError::Name(
                FilterNameError::Oversized {
                    limit: names.name_size_limit,
                    size: byte_len(configs[k].0@),
                },
            )
        }),
{
    let results = crate::slots::each_requested(slots, names);
    lemma_all_or_first(slots, results, k);
    assert forall|i: int|
        #![trigger slots[i]]
        0 <= i < slots.len() implies results[i] == crate::slots::requested_filter(
        slots[i].0@,
        slots[i].1,
        names,
    ) by {}
    let plain = each_name(configs, names);
    lemma_all_or_first(configs, plain, k);
    assert forall|i: int|
        #![trigger configs[i]]
        0 <= i < configs.len() implies (plain[i] is Ok <==> byte_len(configs[i].0@)
        <= names.name_size_limit) && (plain[i] is Ok ==> plain[i]->Ok_0 == configs[i].0@) && (
    plain[i] is Err ==> plain[i]->Err_0 == FilterError::Name(
        FilterNameError::Oversized {
            limit: names.name_size_limit,
            size: byte_len(configs[i].0@),
        },
    )) by {}
}

/// A request is accepted exactly where all its filters are, the number for its commitment level is
/// that of one, and its data slices are accepted. Its parts are looked at in this order, and the
/// first that is refused gives the reason.
pub proof fn lemma_requests_accepted(
    config: SubscribeRequest,
    limits: FilterLimits,
    names: FilterNames,
)
    ensures
        ({
            let r = FilterView::requested(config, limits, names);
            let accounts = crate::accounts::requested_filters(
                config.accounts@,
                limits.accounts,
                names,
            );
            let slots = crate::slots::requested_filters(config.slots@, limits.slots, names);
            let transactions = crate::transactions::requested_filters(
                config.transactions@,
                limits.transactions,
                names,
            );
            let statuses = crate::transactions::requested_filters(
                config.transactions_status@,
                limits.transactions_status,
                names,
            );
            let entries = requested_names(config.entry@, limits.entries.max, names);
            let blocks = crate::blocks::requested_filters(config.blocks@, limits.blocks, names);
            let metas = requested_names(config.blocks_meta@, limits.blocks_meta.max, names);
            let leveled = config.commitment is Some ==> 0 <= config.commitment->0 <= 2;
            let slices = requested_ranges(
                config.accounts_data_slice@,
                limits.accounts.data_slice_max,
            );
            let upto_slots = accounts is Ok && slots is Ok;
            let upto_statuses = upto_slots && transactions is Ok && statuses is Ok;
            let upto_metas = upto_statuses && entries is Ok && blocks is Ok && metas is Ok;
            &&& r is Ok <==> upto_metas && leveled && slices is Ok
            &&& accounts is Err ==> r is Err && r->Err_0 == accounts->Err_0
            &&& accounts is Ok && slots is Err ==> r is Err && r->Err_0 == slots->Err_0
            &&& upto_slots && transactions is Err ==> r is Err && r->Err_0 == transactions->Err_0
            &&& upto_slots && transactions is Ok && statuses is Err ==> r is Err && r->Err_0
                == statuses->Err_0
            &&& upto_statuses && entries is Err ==> r is Err && r->Err_0 == entries->Err_0
            &&& upto_statuses && entries is Ok && blocks is Err ==> r is Err && r->Err_0
                == blocks->Err_0
            &&& upto_statuses && entries is Ok && blocks is Ok && metas is Err ==> r is Err
                && r->Err_0 == metas->Err_0
            &&& upto_metas && !leveled ==> r is Err && r->Err_0 == (
            FilterError::InvalidCommitment { commitment: config.commitment->0 })
            &&& upto_metas && leveled && slices is Err ==> r is Err && r->Err_0 == slices->Err_0
        }),
{
}

/// What an accepted request says beside its filters: without a commitment level it is at the
/// lowest, a ping is answered under its number, and the ranges of data are those asked for.
pub proof fn lemma_accepted_settings(
    config: SubscribeRequest,
    limits: FilterLimits,
    names: FilterNames,
)
    requires
        FilterView::requested(config, limits, names) is Ok,
    ensures
        ({
            let filter = FilterView::requested(config, limits, names)->Ok_0;
            &&& config.commitment is None || config.commitment == Some(0i32)
                <==> filter.commitment == CommitmentLevel::Processed
            &&& config.commitment == Some(1i32) <==> filter.commitment
                == CommitmentLevel::Confirmed
            &&& config.commitment == Some(2i32) <==> filter.commitment
                == CommitmentLevel::Finalized
            &&& config.ping is None ==> filter.ping is None
            &&& config.ping is Some ==> filter.ping == Some(config.ping->0.id)
            &&& filter.accounts_data_slice.len() == config.accounts_data_slice@.len()
            &&& forall|i: int|
                #![trigger config.accounts_data_slice@[i]]
                0 <= i < config.accounts_data_slice@.len() && config.accounts_data_slice@[i].offset
                    + config.accounts_data_slice@[i].length <= usize::MAX ==> {
                    &&& filter.accounts_data_slice[i].start == config.accounts_data_slice@[i].offset
                    &&& filter.accounts_data_slice[i].end == config.accounts_data_slice@[i].offset
                        + config.accounts_data_slice@[i].length
                }
        }),
{
    let filter = FilterView::requested(config, limits, names)->Ok_0;
    let slices = config.accounts_data_slice@;
    lemma_accepted_ranges(slices, limits.accounts.data_slice_max, Seq::empty());
    assert forall|i: int|
        #![trigger slices[i]]
        0 <= i < slices.len() implies filter.accounts_data_slice[i] == slices[i].range() by {}
}

/// A request for the deshred stream is accepted exactly where its filters are, and else refused
/// for the same reason; a ping is answered under its number.
pub proof fn lemma_deshred_requests_accepted(
    config: SubscribeDeshredRequest,
    limits: FilterLimits,
    names: FilterNames,
)
    ensures
        ({
            let r = DeshredFilterView::requested(config, limits, names);
            let filters = crate::deshred_transactions::requested_filters(
                config.deshred_transactions@,
                limits.deshred_transactions,
                names,
            );
            &&& r is Ok <==> filters is Ok
            &&& r is Err ==> r->Err_0 == filters->Err_0
            &&& r is Ok && config.ping is None ==> r->Ok_0.ping is None
            &&& r is Ok && config.ping is Some ==> r->Ok_0.ping == Some(config.ping->0.id)
        }),
{
}

/// The counts of an accepted request are those of its filters, kind by kind, and of all together.
pub proof fn lemma_metrics_count_the_request(
    config: SubscribeRequest,
    limits: FilterLimits,
    names: FilterNames,
)
    requires
        FilterView::requested(config, limits, names) is Ok,
        config.accounts@.len() + config.slots@.len() + config.transactions@.len()
            + config.transactions_status@.len() + config.entry@.len() + config.blocks@.len()
            + config.blocks_meta@.len() <= usize::MAX,
    ensures
        ({
            let filter = FilterView::requested(config, limits, names)->Ok_0;
            let counts = metrics(filter);
            &&& filter.count() <= usize::MAX
            &&& counts.len() == 8
            &&& counts[0].0 == "accounts" && counts[0].1 == config.accounts@.len()
            &&& counts[1].0 == "slots" && counts[1].1 == config.slots@.len()
            &&& counts[2].0 == "transactions" && counts[2].1 == config.transactions@.len()
            &&& counts[3].0 == "transactions_status" && counts[3].1
                == config.transactions_status@.len()
            &&& counts[4].0 == "entries" && counts[4].1 == config.entry@.len()
            &&& counts[5].0 == "blocks" && counts[5].1 == config.blocks@.len()
            &&& counts[6].0 == "blocks_meta" && counts[6].1 == config.blocks_meta@.len()
            &&& counts[7].0 == "all" && counts[7].1 == config.accounts@.len()
                + config.slots@.len() + config.transactions@.len()
                + config.transactions_status@.len() + config.entry@.len() + config.blocks@.len()
                + config.blocks_meta@.len()
        }),
{
    lemma_accepted_counts(config, limits, names);
}

/// The counts of an accepted request for the deshred stream are those of its filters.
pub proof fn lemma_deshred_metrics_count_the_request(
    config: SubscribeDeshredRequest,
    limits: FilterLimits,
    names: FilterNames,
)
    requires
        DeshredFilterView::requested(config, limits, names) is Ok,
    ensures
        ({
            let counts = deshred_metrics(DeshredFilterView::requested(config, limits, names)->Ok_0);
            &&& counts.len() == 2
            &&& counts[0].0 == "deshred_transactions" && counts[0].1
                == config.deshred_transactions@.len()
            &&& counts[1].0 == "all" && counts[1].1 == config.deshred_transactions@.len()
        }),
{
    lemma_accepted_deshred_names(config, limits, names);
}

/// Limits that limit nothing refuse no filter on transactions that is well formed and has a short
/// name, even one that asks for everything.
pub proof fn lemma_open_limits_take_transactions(
    name: Seq<char>,
    asked: SubscribeRequestFilterTransactions,
    limits: FilterLimitsTransactions,
    names: FilterNames,
)
    requires
        limits.open(),
        byte_len(name) <= names.name_size_limit,
        asked.signature is Some ==> signature_from_text(asked.signature->0@) is Ok,
        asked.account_include@.len() <= usize::MAX,
        forall|k: int|
            0 <= k < asked.account_include@.len()
                ==> pubkey_from_text((#[trigger] asked.account_include@[k])@) is Ok,
        asked.account_exclude@.len() <= usize::MAX,
        forall|k: int|
            0 <= k < asked.account_exclude@.len()
                ==> pubkey_from_text((#[trigger] asked.account_exclude@[k])@) is Ok,
        asked.account_required@.len() <= usize::MAX,
        forall|k: int|
            0 <= k < asked.account_required@.len()
                ==> pubkey_from_text((#[trigger] asked.account_required@[k])@) is Ok,
    ensures
        crate::transactions::requested_filter(name, asked, limits, names) is Ok,
        limits.max == usize::MAX,
{
    lemma_transactions_filters_accepted(name, asked, limits, names);
}

/// Limits that limit nothing refuse no filter on received transactions that is well formed and has
/// a short name, even one that asks for everything.
pub proof fn lemma_open_limits_take_received_transactions(
    name: Seq<char>,
    asked: SubscribeRequestFilterDeshredTransactions,
    limits: FilterLimitsDeshredTransactions,
    names: FilterNames,
)
    requires
        limits.open(),
        byte_len(name) <= names.name_size_limit,
        asked.account_include@.len() <= usize::MAX,
        forall|k: int|
            0 <= k < asked.account_include@.len()
                ==> pubkey_from_text((#[trigger] asked.account_include@[k])@) is Ok,
        asked.account_exclude@.len() <= usize::MAX,
        forall|k: int|
            0 <= k < asked.account_exclude@.len()
                ==> pubkey_from_text((#[trigger] asked.account_exclude@[k])@) is Ok,
        asked.account_required@.len() <= usize::MAX,
        forall|k: int|
            0 <= k < asked.account_required@.len()
                ==> pubkey_from_text((#[trigger] asked.account_required@[k])@) is Ok,
    ensures
        crate::deshred_transactions::requested_filter(name, asked, limits, names) is Ok,
        limits.max == usize::MAX,
{
    lemma_received_transactions_filters_accepted(name, asked, limits, names);
}

/// Limits that limit nothing refuse no filter on blocks that is well formed and has a short name,
/// whatever parts of blocks it hands on.
pub proof fn lemma_open_limits_take_blocks(
    name: Seq<char>,
    asked: SubscribeRequestFilterBlocks,
    limits: FilterLimitsBlocks,
    names: FilterNames,
)
    requires
        limits.open(),
        byte_len(name) <= names.name_size_limit,
        asked.account_include@.len() <= usize::MAX,
        forall|k: int|
            0 <= k < asked.account_include@.len()
                ==> pubkey_from_text((#[trigger] asked.account_include@[k])@) is Ok,
    ensures
        crate::blocks::requested_filter(name, asked, limits, names) is Ok,
        limits.max == usize::MAX,
{
    lemma_blocks_filters_accepted(name, asked, limits, names);
}

/// Limits that limit nothing refuse no filter on accounts that is well formed and has a short name,
/// even one that asks for everything.
pub proof fn lemma_open_limits_take_accounts(
    name: Seq<char>,
    asked: SubscribeRequestFilterAccounts,
    limits: FilterLimitsAccounts,
    names: FilterNames,
)
    requires
        limits.open(),
        byte_len(name) <= names.name_size_limit,
        requested_state(asked.filters@) is Ok,
        asked.account@.len() <= usize::MAX,
        forall|k: int|
            0 <= k < asked.account@.len()
                ==> pubkey_from_text((#[trigger] asked.account@[k])@) is Ok,
        asked.owner@.len() <= usize::MAX,
        forall|k: int|
            0 <= k < asked.owner@.len() ==> pubkey_from_text((#[trigger] asked.owner@[k])@) is Ok,
    ensures
        crate::accounts::requested_filter(name, asked, limits, names) is Ok,
        limits.max == usize::MAX,
        limits.data_slice_max == usize::MAX,
{
    lemma_accounts_filters_accepted(name, asked, limits, names);
}

/// A subscriber that asked for nothing is at the lowest commitment level, pinged nobody, has no
/// filters and gets all of the data of accounts.
pub proof fn lemma_nothing_asked()
    ensures
        FilterView::none().commitment == CommitmentLevel::Processed,
        FilterView::none().ping is None,
        FilterView::none().accounts_data_slice.len() == 0,
        FilterView::none().count() == 0,
        DeshredFilterView::none().ping is None,
        DeshredFilterView::none().deshred_transactions.len() == 0,
{
}

/// The data slices of a request are read exactly where it can only be refused on their account,
/// and not for their number: where they are not read it is refused whatever they are, and where
/// they are read it is accepted or they are out of order or overlap.
pub proof fn lemma_slices_are_read_last(
    config: SubscribeRequest,
    limits: FilterLimits,
    names: FilterNames,
)
    ensures
        ({
            let r = FilterView::requested(config, limits, names);
            let read = FilterView::reads_slices(config, limits, names);
            &&& !read ==> r is Err
            &&& !read ==> r->Err_0 != FilterError::CreateDataSliceOutOfOrder && r->Err_0
                != FilterError::CreateDataSliceOverlap
            &&& read && r is Err ==> r->Err_0 == FilterError::CreateDataSliceOutOfOrder
                || r->Err_0 == FilterError::CreateDataSliceOverlap
        }),
{
    let ranges = ranges_of(config.accounts_data_slice@);
    lemma_collected(each_range(ranges));
    lemma_no_slice_errors(config, limits, names);
}

/// Nothing but data slices is refused for being out of order or for an overlap.
proof fn lemma_no_slice_errors(
    config: SubscribeRequest,
    limits: FilterLimits,
    names: FilterNames,
)
    ensures
        ({
            let r = FilterView::requested_unsliced(config, limits, names);
            r is Err ==> r->Err_0 != FilterError::CreateDataSliceOutOfOrder && r->Err_0
                != FilterError::CreateDataSliceOverlap
        }),
{
    lemma_collected(crate::accounts::each_requested(config.accounts@, limits.accounts, names));
    lemma_collected(crate::slots::each_requested(config.slots@, names));
    lemma_collected(
        crate::transactions::each_requested(config.transactions@, limits.transactions, names),
    );
    lemma_collected(
        crate::transactions::each_requested(
            config.transactions_status@,
            limits.transactions_status,
            names,
        ),
    );
    lemma_collected(each_name(config.entry@, names));
    lemma_collected(crate::blocks::each_requested(config.blocks@, limits.blocks, names));
    lemma_collected(each_name(config.blocks_meta@, names));
    assert forall|texts: Seq<String>, reject: Set<Pubkey>|
        (#[trigger] decoded_pubkeys(texts, reject)) is Err implies decoded_pubkeys(
        texts,
        reject,
    )->Err_0 is InvalidPubkey || decoded_pubkeys(texts, reject)->Err_0 is LimitsCheck by {
        lemma_collected(each_pubkey(texts, reject));
    }
    assert forall|filters: Seq<SubscribeRequestFilterAccountsFilter>|
        (#[trigger] requested_state(filters)) is Err implies requested_state(filters)->Err_0
        is CreateAccountState || requested_state(filters)->Err_0
        is CreateAccountStateMaxFilters by {
        lemma_condition_errors(filters);
    }
}

proof fn lemma_condition_errors(filters: Seq<SubscribeRequestFilterAccountsFilter>)
    ensures
        gathered(filters) is Err ==> gathered(filters)->Err_0 is CreateAccountState,
    decreases filters.len(),
{
    if filters.len() > 0 {
        lemma_condition_errors(filters.drop_last());
    }
}

} // verus!
