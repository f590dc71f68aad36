//! The query envelope.
//!
//! A query to a native module group travels as a wide record with one slot
//! per known query kind, of which exactly one is populated; the populated
//! slot's key is the kind's canonical name and doubles as the discriminant.
//! The builders below are the only way to produce an envelope, so the
//! single-slot invariant holds by construction; `lemma_query_single_slot`
//! states it for every envelope value.

use vstd::prelude::*;

use crate::query_incentive::{AccountBondsParams, ActualRatesParams, CompletedIncentiveProgramsParams, CurrentRatesParams, IncentiveParametersParams, IncentiveProgramParams, LastRewardTimeParams, OngoingIncentiveProgramsParams, PendingRewardsParams, TotalBondedParams, TotalUnbondingParams, UmeeQueryIncentive, UpcomingIncentiveProgramsParams};
use crate::query_leverage::{AccountBalancesParams, AccountSummaryParams, BadDebtsParams, LeverageParametersParams, LiquidationTargetsParams, MarketSummaryParams, MaxBorrowParams, MaxWithdrawParams, RegisteredTokensParams, UmeeQueryLeverage};
use crate::query_metoken::{MetokenIndexPricesParams, MetokenIndexbalancesParams, MetokenIndexesParams, MetokenParametersParams, MetokenRedeemfeeParams, MetokenSwapfeeParams, UmeeQueryMeToken};
use crate::query_oracle::{ActiveExchangeRatesParams, AggregatePrevoteParams, AggregatePrevotesParams, AggregateVoteParams, AggregateVotesParams, ExchangeRatesParams, FeederDelegationParams, MedianDeviationsParams, MediansParams, MissCounterParams, OracleParametersParams, SlashWindowParams, UmeeQueryOracle};
use crate::record::WireRecord;
use crate::wire::{json_wf, str_eq, JsonEntry, JsonSpec, JsonVal};

verus! {

broadcast use vstd::string::group_string_axioms;

/// The native module groups that answer queries, as one tagged union.
#[derive(Clone, Debug, PartialEq, Eq)]
pub enum UmeeQuery {
    Leverage(UmeeQueryLeverage),
    Oracle(UmeeQueryOracle),
    Incentive(UmeeQueryIncentive),
    Metoken(UmeeQueryMeToken),
}

/// Length and distinguishing characters of every variant key of the
/// wire shape.
proof fn lemma_umee_query_keys()
    ensures
        "leverage"@.len() == 8,
        "oracle"@.len() == 6,
        "incentive"@.len() == 9,
        "metoken"@.len() == 7,
        "incentive"@[0] == 'i',
        "leverage"@[0] == 'l',
        "metoken"@[0] == 'm',
        "oracle"@[0] == 'o',
{
    reveal_strlit("leverage");
    assert("leverage"@ =~= seq!['l', 'e', 'v', 'e', 'r', 'a', 'g', 'e']);
    reveal_strlit("oracle");
    assert("oracle"@ =~= seq!['o', 'r', 'a', 'c', 'l', 'e']);
    reveal_strlit("incentive");
    assert("incentive"@ =~= seq!['i', 'n', 'c', 'e', 'n', 't', 'i', 'v', 'e']);
    reveal_strlit("metoken");
    assert("metoken"@ =~= seq!['m', 'e', 't', 'o', 'k', 'e', 'n']);
}

/// Every value's wire record is a single-entry object.
proof fn lemma_umee_query_shape(x: UmeeQuery)
    ensures
        x.jval() is Obj,
        x.jval()->Obj_0.len() == 1,
{
    match x {
        UmeeQuery::Leverage(q) => {
            assert(x.jval()->Obj_0.len() == 1);
        },
        UmeeQuery::Oracle(q) => {
            assert(x.jval()->Obj_0.len() == 1);
        },
        UmeeQuery::Incentive(q) => {
            assert(x.jval()->Obj_0.len() == 1);
        },
        UmeeQuery::Metoken(q) => {
            assert(x.jval()->Obj_0.len() == 1);
        },
    }
}

/// A value whose wire record is this single entry is the variant the
/// entry's key names, and the entry's payload is that variant's.
proof fn lemma_umee_query_tag(x: UmeeQuery, e: (Seq<char>, JsonSpec))
    requires
        JsonSpec::Obj(seq![e]) == x.jval(),
    ensures
        ({
            ||| (x matches UmeeQuery::Leverage(q) && e == ("leverage"@, q.jval()))
            ||| (x matches UmeeQuery::Oracle(q) && e == ("oracle"@, q.jval()))
            ||| (x matches UmeeQuery::Incentive(q) && e == ("incentive"@, q.jval()))
            ||| (x matches UmeeQuery::Metoken(q) && e == ("metoken"@, q.jval()))
        }),
{
    match x {
        UmeeQuery::Leverage(q) => {
            assert(x.jval()->Obj_0[0] == ("leverage"@, q.jval()));
            assert(e == ("leverage"@, q.jval()));
        },
        UmeeQuery::Oracle(q) => {
            assert(x.jval()->Obj_0[0] == ("oracle"@, q.jval()));
            assert(e == ("oracle"@, q.jval()));
        },
        UmeeQuery::Incentive(q) => {
            assert(x.jval()->Obj_0[0] == ("incentive"@, q.jval()));
            assert(e == ("incentive"@, q.jval()));
        },
        UmeeQuery::Metoken(q) => {
            assert(x.jval()->Obj_0[0] == ("metoken"@, q.jval()));
            assert(e == ("metoken"@, q.jval()));
        },
    }
}

/// A single-entry wire shape under this key decodes only through its
/// own payload type.
proof fn lemma_umee_query_reject_leverage(e: (Seq<char>, JsonSpec))
    requires
        e.0 == "leverage"@,
        forall|y: UmeeQueryLeverage| e.1 != #[trigger] y.jval(),
    ensures
        forall|x: UmeeQuery| JsonSpec::Obj(seq![e]) != #[trigger] x.jval(),
{
    lemma_umee_query_keys();
    assert forall|x: UmeeQuery| JsonSpec::Obj(seq![e]) != #[trigger] x.jval() by {
        if JsonSpec::Obj(seq![e]) == x.jval() {
            lemma_umee_query_tag(x, e);
            match x {
                UmeeQuery::Leverage(q) => {
                    assert(e.1 == q.jval());
                },
                _ => {},
            }
        }
    }
}

/// A single-entry wire shape under this key decodes only through its
/// own payload type.
proof fn lemma_umee_query_reject_oracle(e: (Seq<char>, JsonSpec))
    requires
        e.0 == "oracle"@,
        forall|y: UmeeQueryOracle| e.1 != #[trigger] y.jval(),
    ensures
        forall|x: UmeeQuery| JsonSpec::Obj(seq![e]) != #[trigger] x.jval(),
{
    lemma_umee_query_keys();
    assert forall|x: UmeeQuery| JsonSpec::Obj(seq![e]) != #[trigger] x.jval() by {
        if JsonSpec::Obj(seq![e]) == x.jval() {
            lemma_umee_query_tag(x, e);
            match x {
                UmeeQuery::Oracle(q) => {
                    assert(e.1 == q.jval());
                },
                _ => {},
            }
        }
    }
}

/// A single-entry wire shape under this key decodes only through its
/// own payload type.
proof fn lemma_umee_query_reject_incentive(e: (Seq<char>, JsonSpec))
    requires
        e.0 == "incentive"@,
        forall|y: UmeeQueryIncentive| e.1 != #[trigger] y.jval(),
    ensures
        forall|x: UmeeQuery| JsonSpec::Obj(seq![e]) != #[trigger] x.jval(),
{
    lemma_umee_query_keys();
    assert forall|x: UmeeQuery| JsonSpec::Obj(seq![e]) != #[trigger] x.jval() by {
        if JsonSpec::Obj(seq![e]) == x.jval() {
            lemma_umee_query_tag(x, e);
            match x {
                UmeeQuery::Incentive(q) => {
                    assert(e.1 == q.jval());
                },
                _ => {},
            }
        }
    }
}

/// A single-entry wire shape under this key decodes only through its
/// own payload type.
proof fn lemma_umee_query_reject_metoken(e: (Seq<char>, JsonSpec))
    requires
        e.0 == "metoken"@,
        forall|y: UmeeQueryMeToken| e.1 != #[trigger] y.jval(),
    ensures
        forall|x: UmeeQuery| JsonSpec::Obj(seq![e]) != #[trigger] x.jval(),
{
    lemma_umee_query_keys();
    assert forall|x: UmeeQuery| JsonSpec::Obj(seq![e]) != #[trigger] x.jval() by {
        if JsonSpec::Obj(seq![e]) == x.jval() {
            lemma_umee_query_tag(x, e);
            match x {
                UmeeQuery::Metoken(q) => {
                    assert(e.1 == q.jval());
                },
                _ => {},
            }
        }
    }
}

/// A single-entry wire shape under an unknown key decodes to nothing.
proof fn lemma_umee_query_reject_other(e: (Seq<char>, JsonSpec))
    requires
        e.0 != "leverage"@,
        e.0 != "oracle"@,
        e.0 != "incentive"@,
        e.0 != "metoken"@,
    ensures
        forall|x: UmeeQuery| JsonSpec::Obj(seq![e]) != #[trigger] x.jval(),
{
    assert forall|x: UmeeQuery| JsonSpec::Obj(seq![e]) != #[trigger] x.jval() by {
        if JsonSpec::Obj(seq![e]) == x.jval() {
            lemma_umee_query_tag(x, e);
        }
    }
}

impl WireRecord for UmeeQuery {
    open spec fn jval(self) -> JsonSpec {
        match self {
            UmeeQuery::Leverage(p) => JsonSpec::Obj(seq![("leverage"@, p.jval())]),
            UmeeQuery::Oracle(p) => JsonSpec::Obj(seq![("oracle"@, p.jval())]),
            UmeeQuery::Incentive(p) => JsonSpec::Obj(seq![("incentive"@, p.jval())]),
            UmeeQuery::Metoken(p) => JsonSpec::Obj(seq![("metoken"@, p.jval())]),
        }
    }

    proof fn jval_wf(self) {
        match self {
            UmeeQuery::Leverage(p) => {
                p.jval_wf();
                assert forall|k: int| 0 <= k < self.jval()->Obj_0.len() implies json_wf(
                    #[trigger] self.jval()->Obj_0[k].1,
                ) by {
                    assert(json_wf(self.jval()->Obj_0[0].1));
                }
            },
            UmeeQuery::Oracle(p) => {
                p.jval_wf();
                assert forall|k: int| 0 <= k < self.jval()->Obj_0.len() implies json_wf(
                    #[trigger] self.jval()->Obj_0[k].1,
                ) by {
                    assert(json_wf(self.jval()->Obj_0[0].1));
                }
            },
            UmeeQuery::Incentive(p) => {
                p.jval_wf();
                assert forall|k: int| 0 <= k < self.jval()->Obj_0.len() implies json_wf(
                    #[trigger] self.jval()->Obj_0[k].1,
                ) by {
                    assert(json_wf(self.jval()->Obj_0[0].1));
                }
            },
            UmeeQuery::Metoken(p) => {
                p.jval_wf();
                assert forall|k: int| 0 <= k < self.jval()->Obj_0.len() implies json_wf(
                    #[trigger] self.jval()->Obj_0[k].1,
                ) by {
                    assert(json_wf(self.jval()->Obj_0[0].1));
                }
            },
        }
    }

    fn build_jval(&self) -> (r: JsonVal) {
        match self {
            UmeeQuery::Leverage(p) => {
                let mut entries: Vec<JsonEntry> = Vec::new();
                entries.push(JsonEntry { key: String::from_str("leverage"), val: p.build_jval() });
                let ghost ges = entries@;
                let r = JsonVal::Obj(entries);
                proof {
                    assert(r.dv()->Obj_0[0] == (ges[0].key@, ges[0].val.dv()));
                    assert(r.dv()->Obj_0 =~~= self.jval()->Obj_0);
                    assert(r.dv() =~~= self.jval());
                    assert(ges[0].val.wf());
                }
                r
            },
            UmeeQuery::Oracle(p) => {
                let mut entries: Vec<JsonEntry> = Vec::new();
                entries.push(JsonEntry { key: String::from_str("oracle"), val: p.build_jval() });
                let ghost ges = entries@;
                let r = JsonVal::Obj(entries);
                proof {
                    assert(r.dv()->Obj_0[0] == (ges[0].key@, ges[0].val.dv()));
                    assert(r.dv()->Obj_0 =~~= self.jval()->Obj_0);
                    assert(r.dv() =~~= self.jval());
                    assert(ges[0].val.wf());
                }
                r
            },
            UmeeQuery::Incentive(p) => {
                let mut entries: Vec<JsonEntry> = Vec::new();
                entries.push(JsonEntry { key: String::from_str("incentive"), val: p.build_jval() });
                let ghost ges = entries@;
                let r = JsonVal::Obj(entries);
                proof {
                    assert(r.dv()->Obj_0[0] == (ges[0].key@, ges[0].val.dv()));
                    assert(r.dv()->Obj_0 =~~= self.jval()->Obj_0);
                    assert(r.dv() =~~= self.jval());
                    assert(ges[0].val.wf());
                }
                r
            },
            UmeeQuery::Metoken(p) => {
                let mut entries: Vec<JsonEntry> = Vec::new();
                entries.push(JsonEntry { key: String::from_str("metoken"), val: p.build_jval() });
                let ghost ges = entries@;
                let r = JsonVal::Obj(entries);
                proof {
                    assert(r.dv()->Obj_0[0] == (ges[0].key@, ges[0].val.dv()));
                    assert(r.dv()->Obj_0 =~~= self.jval()->Obj_0);
                    assert(r.dv() =~~= self.jval());
                    assert(ges[0].val.wf());
                }
                r
            },
        }
    }

    fn from_jval(v: &JsonVal) -> (r: Option<UmeeQuery>) {
        match v {
            JsonVal::Obj(entries) => {
                if entries.len() == 1 {
                    proof {
                        assert(v.dv()->Obj_0[0] == (entries@[0].key@, entries@[0].val.dv()));
                        assert(v.dv()->Obj_0 =~~= seq![(entries@[0].key@, entries@[0].val.dv())]);
                        assert(v.dv() =~~= JsonSpec::Obj(seq![(entries@[0].key@, entries@[0].val.dv())]));
                    }
                    let key = entries[0].key.as_str();
                    if str_eq(key, "leverage") {
                        match WireRecord::from_jval(&entries[0].val) {
                            Some(p) => {
                                let x = UmeeQuery::Leverage(p);
                                proof {
                                    assert(x.jval()->Obj_0 =~~= v.dv()->Obj_0);
                                    assert(x.jval() =~~= v.dv());
                                }
                                Some(x)
                            },
                            None => {
                                proof {
                                    lemma_umee_query_reject_leverage((entries@[0].key@, entries@[0].val.dv()));
                                }
                                None
                            },
                        }
                    } else if str_eq(key, "oracle") {
                        match WireRecord::from_jval(&entries[0].val) {
                            Some(p) => {
                                let x = UmeeQuery::Oracle(p);
                                proof {
                                    assert(x.jval()->Obj_0 =~~= v.dv()->Obj_0);
                                    assert(x.jval() =~~= v.dv());
                                }
                                Some(x)
                            },
                            None => {
                                proof {
                                    lemma_umee_query_reject_oracle((entries@[0].key@, entries@[0].val.dv()));
                                }
                                None
                            },
                        }
                    } else if str_eq(key, "incentive") {
                        match WireRecord::from_jval(&entries[0].val) {
                            Some(p) => {
                                let x = UmeeQuery::Incentive(p);
                                proof {
                                    assert(x.jval()->Obj_0 =~~= v.dv()->Obj_0);
                                    assert(x.jval() =~~= v.dv());
                                }
                                Some(x)
                            },
                            None => {
                                proof {
                                    lemma_umee_query_reject_incentive((entries@[0].key@, entries@[0].val.dv()));
                                }
                                None
                            },
                        }
                    } else if str_eq(key, "metoken") {
                        match WireRecord::from_jval(&entries[0].val) {
                            Some(p) => {
                                let x = UmeeQuery::Metoken(p);
                                proof {
                                    assert(x.jval()->Obj_0 =~~= v.dv()->Obj_0);
                                    assert(x.jval() =~~= v.dv());
                                }
                                Some(x)
                            },
                            None => {
                                proof {
                                    lemma_umee_query_reject_metoken((entries@[0].key@, entries@[0].val.dv()));
                                }
                                None
                            },
                        }
                    } else {
                        proof {
                            lemma_umee_query_reject_other((entries@[0].key@, entries@[0].val.dv()));
                        }
                        None
                    }
                } else {
                    proof {
                        assert forall|x: UmeeQuery| v.dv() != #[trigger] x.jval() by {
                            lemma_umee_query_shape(x);
                        }
                    }
                    None
                }
            },
            _ => {
                proof {
                    assert forall|x: UmeeQuery| v.dv() != #[trigger] x.jval() by {
                        lemma_umee_query_shape(x);
                    }
                }
                None
            },
        }
    }
}
/// The populated slot of a query envelope.
#[derive(Clone, Debug, PartialEq, Eq)]
pub enum QuerySlot {
    ExchangeRates(ExchangeRatesParams),
    LeverageParameters(LeverageParametersParams),
    MarketSummary(MarketSummaryParams),
    AccountBalances(AccountBalancesParams),
    AccountSummary(AccountSummaryParams),
    RegisteredTokens(RegisteredTokensParams),
    LiquidationTargets(LiquidationTargetsParams),
    ActiveExchangeRates(ActiveExchangeRatesParams),
    FeederDelegation(FeederDelegationParams),
    MissCounter(MissCounterParams),
    SlashWindow(SlashWindowParams),
    AggregatePrevote(AggregatePrevoteParams),
    AggregatePrevotes(AggregatePrevotesParams),
    AggregateVote(AggregateVoteParams),
    AggregateVotes(AggregateVotesParams),
    OracleParams(OracleParametersParams),
    BadDebts(BadDebtsParams),
    MaxWithdraw(MaxWithdrawParams),
    MaxBorrow(MaxBorrowParams),
    Medians(MediansParams),
    MedianDeviations(MedianDeviationsParams),
    IncentiveParameters(IncentiveParametersParams),
    TotalBonded(TotalBondedParams),
    TotalUnbonding(TotalUnbondingParams),
    AccountBonds(AccountBondsParams),
    PendingRewards(PendingRewardsParams),
    CompletedIncentivePrograms(CompletedIncentiveProgramsParams),
    OngoingIncentivePrograms(OngoingIncentiveProgramsParams),
    UpcomingIncentivePrograms(UpcomingIncentiveProgramsParams),
    IncentiveProgram(IncentiveProgramParams),
    CurrentRates(CurrentRatesParams),
    ActualRates(ActualRatesParams),
    LastRewardTime(LastRewardTimeParams),
    MetokenParameters(MetokenParametersParams),
    MetokenIndexes(MetokenIndexesParams),
    MetokenSwapfee(MetokenSwapfeeParams),
    MetokenRedeemfee(MetokenRedeemfeeParams),
    MetokenIndexbalances(MetokenIndexbalancesParams),
    MetokenIndexprice(MetokenIndexPricesParams),
}

/// Length and distinguishing characters of every variant key of the
/// wire shape.
proof fn lemma_query_slot_keys()
    ensures
        "exchange_rates"@.len() == 14,
        "leverage_parameters"@.len() == 19,
        "market_summary"@.len() == 14,
        "account_balances"@.len() == 16,
        "account_summary"@.len() == 15,
        "registered_tokens"@.len() == 17,
        "liquidation_targets"@.len() == 19,
        "active_exchange_rates"@.len() == 21,
        "feeder_delegation"@.len() == 17,
        "miss_counter"@.len() == 12,
        "slash_window"@.len() == 12,
        "aggregate_prevote"@.len() == 17,
        "aggregate_prevotes"@.len() == 18,
        "aggregate_vote"@.len() == 14,
        "aggregate_votes"@.len() == 15,
        "oracle_params"@.len() == 13,
        "bad_debts_params"@.len() == 16,
        "max_withdraw_params"@.len() == 19,
        "max_borrow_params"@.len() == 17,
        "medians_params"@.len() == 14,
        "median_deviations_params"@.len() == 24,
        "incentive_parameters"@.len() == 20,
        "total_bonded"@.len() == 12,
        "total_unbonding"@.len() == 15,
        "account_bonds"@.len() == 13,
        "pending_rewards"@.len() == 15,
        "completed_incentive_programs"@.len() == 28,
        "ongoing_incentive_programs"@.len() == 26,
        "upcoming_incentive_programs"@.len() == 27,
        "incentive_program"@.len() == 17,
        "current_rates"@.len() == 13,
        "actual_rates"@.len() == 12,
        "last_reward_time"@.len() == 16,
        "metoken_parameters"@.len() == 18,
        "metoken_indexes"@.len() == 15,
        "metoken_swapfee"@.len() == 15,
        "metoken_redeemfee"@.len() == 17,
        "metoken_indexbalances"@.len() == 21,
        "metoken_indexprice"@.len() == 18,
        "account_balances"@[0] == 'a',
        "account_bonds"@[0] == 'a',
        "account_summary"@[0] == 'a',
        "account_summary"@[1] == 'c',
        "active_exchange_rates"@[0] == 'a',
        "actual_rates"@[0] == 'a',
        "aggregate_prevote"@[0] == 'a',
        "aggregate_prevotes"@[0] == 'a',
        "aggregate_vote"@[0] == 'a',
        "aggregate_votes"@[0] == 'a',
        "aggregate_votes"@[1] == 'g',
        "bad_debts_params"@[0] == 'b',
        "completed_incentive_programs"@[0] == 'c',
        "current_rates"@[0] == 'c',
        "exchange_rates"@[0] == 'e',
        "feeder_delegation"@[0] == 'f',
        "incentive_parameters"@[0] == 'i',
        "incentive_program"@[0] == 'i',
        "last_reward_time"@[0] == 'l',
        "leverage_parameters"@[0] == 'l',
        "leverage_parameters"@[1] == 'e',
        "liquidation_targets"@[0] == 'l',
        "liquidation_targets"@[1] == 'i',
        "market_summary"@[0] == 'm',
        "market_summary"@[1] == 'a',
        "max_borrow_params"@[0] == 'm',
        "max_borrow_params"@[1] == 'a',
        "max_withdraw_params"@[0] == 'm',
        "median_deviations_params"@[0] == 'm',
        "medians_params"@[0] == 'm',
        "medians_params"@[1] == 'e',
        "metoken_indexbalances"@[0] == 'm',
        "metoken_indexes"@[0] == 'm',
        "metoken_indexes"@[8] == 'i',
        "metoken_indexprice"@[0] == 'm',
        "metoken_indexprice"@[8] == 'i',
        "metoken_parameters"@[0] == 'm',
        "metoken_parameters"@[8] == 'p',
        "metoken_redeemfee"@[0] == 'm',
        "metoken_redeemfee"@[1] == 'e',
        "metoken_swapfee"@[0] == 'm',
        "metoken_swapfee"@[8] == 's',
        "miss_counter"@[0] == 'm',
        "ongoing_incentive_programs"@[0] == 'o',
        "oracle_params"@[0] == 'o',
        "pending_rewards"@[0] == 'p',
        "registered_tokens"@[0] == 'r',
        "slash_window"@[0] == 's',
        "total_bonded"@[0] == 't',
        "total_unbonding"@[0] == 't',
        "upcoming_incentive_programs"@[0] == 'u',
{
    reveal_strlit("exchange_rates");
    assert("exchange_rates"@ =~= seq!['e', 'x', 'c', 'h', 'a', 'n', 'g', 'e', '_', 'r', 'a', 't', 'e', 's']);
    reveal_strlit("leverage_parameters");
    assert("leverage_parameters"@ =~= seq!['l', 'e', 'v', 'e', 'r', 'a', 'g', 'e', '_', 'p', 'a', 'r', 'a', 'm', 'e', 't', 'e', 'r', 's']);
    reveal_strlit("market_summary");
    assert("market_summary"@ =~= seq!['m', 'a', 'r', 'k', 'e', 't', '_', 's', 'u', 'm', 'm', 'a', 'r', 'y']);
    reveal_strlit("account_balances");
    assert("account_balances"@ =~= seq!['a', 'c', 'c', 'o', 'u', 'n', 't', '_', 'b', 'a', 'l', 'a', 'n', 'c', 'e', 's']);
    reveal_strlit("account_summary");
    assert("account_summary"@ =~= seq!['a', 'c', 'c', 'o', 'u', 'n', 't', '_', 's', 'u', 'm', 'm', 'a', 'r', 'y']);
    reveal_strlit("registered_tokens");
    assert("registered_tokens"@ =~= seq!['r', 'e', 'g', 'i', 's', 't', 'e', 'r', 'e', 'd', '_', 't', 'o', 'k', 'e', 'n', 's']);
    reveal_strlit("liquidation_targets");
    assert("liquidation_targets"@ =~= seq!['l', 'i', 'q', 'u', 'i', 'd', 'a', 't', 'i', 'o', 'n', '_', 't', 'a', 'r', 'g', 'e', 't', 's']);
    reveal_strlit("active_exchange_rates");
    assert("active_exchange_rates"@ =~= seq!['a', 'c', 't', 'i', 'v', 'e', '_', 'e', 'x', 'c', 'h', 'a', 'n', 'g', 'e', '_', 'r', 'a', 't', 'e', 's']);
    reveal_strlit("feeder_delegation");
    assert("feeder_delegation"@ =~= seq!['f', 'e', 'e', 'd', 'e', 'r', '_', 'd', 'e', 'l', 'e', 'g', 'a', 't', 'i', 'o', 'n']);
    reveal_strlit("miss_counter");
    assert("miss_counter"@ =~= seq!['m', 'i', 's', 's', '_', 'c', 'o', 'u', 'n', 't', 'e', 'r']);
    reveal_strlit("slash_window");
    assert("slash_window"@ =~= seq!['s', 'l', 'a', 's', 'h', '_', 'w', 'i', 'n', 'd', 'o', 'w']);
    reveal_strlit("aggregate_prevote");
    assert("aggregate_prevote"@ =~= seq!['a', 'g', 'g', 'r', 'e', 'g', 'a', 't', 'e', '_', 'p', 'r', 'e', 'v', 'o', 't', 'e']);
    reveal_strlit("aggregate_prevotes");
    assert("aggregate_prevotes"@ =~= seq!['a', 'g', 'g', 'r', 'e', 'g', 'a', 't', 'e', '_', 'p', 'r', 'e', 'v', 'o', 't', 'e', 's']);
    reveal_strlit("aggregate_vote");
    assert("aggregate_vote"@ =~= seq!['a', 'g', 'g', 'r', 'e', 'g', 'a', 't', 'e', '_', 'v', 'o', 't', 'e']);
    reveal_strlit("aggregate_votes");
    assert("aggregate_votes"@ =~= seq!['a', 'g', 'g', 'r', 'e', 'g', 'a', 't', 'e', '_', 'v', 'o', 't', 'e', 's']);
    reveal_strlit("oracle_params");
    assert("oracle_params"@ =~= seq!['o', 'r', 'a', 'c', 'l', 'e', '_', 'p', 'a', 'r', 'a', 'm', 's']);
    reveal_strlit("bad_debts_params");
    assert("bad_debts_params"@ =~= seq!['b', 'a', 'd', '_', 'd', 'e', 'b', 't', 's', '_', 'p', 'a', 'r', 'a', 'm', 's']);
    reveal_strlit("max_withdraw_params");
    assert("max_withdraw_params"@ =~= seq!['m', 'a', 'x', '_', 'w', 'i', 't', 'h', 'd', 'r', 'a', 'w', '_', 'p', 'a', 'r', 'a', 'm', 's']);
    reveal_strlit("max_borrow_params");
    assert("max_borrow_params"@ =~= seq!['m', 'a', 'x', '_', 'b', 'o', 'r', 'r', 'o', 'w', '_', 'p', 'a', 'r', 'a', 'm', 's']);
    reveal_strlit("medians_params");
    assert("medians_params"@ =~= seq!['m', 'e', 'd', 'i', 'a', 'n', 's', '_', 'p', 'a', 'r', 'a', 'm', 's']);
    reveal_strlit("median_deviations_params");
    assert("median_deviations_params"@ =~= seq!['m', 'e', 'd', 'i', 'a', 'n', '_', 'd', 'e', 'v', 'i', 'a', 't', 'i', 'o', 'n', 's', '_', 'p', 'a', 'r', 'a', 'm', 's']);
    reveal_strlit("incentive_parameters");
    assert("incentive_parameters"@ =~= seq!['i', 'n', 'c', 'e', 'n', 't', 'i', 'v', 'e', '_', 'p', 'a', 'r', 'a', 'm', 'e', 't', 'e', 'r', 's']);
    reveal_strlit("total_bonded");
    assert("total_bonded"@ =~= seq!['t', 'o', 't', 'a', 'l', '_', 'b', 'o', 'n', 'd', 'e', 'd']);
    reveal_strlit("total_unbonding");
    assert("total_unbonding"@ =~= seq!['t', 'o', 't', 'a', 'l', '_', 'u', 'n', 'b', 'o', 'n', 'd', 'i', 'n', 'g']);
    reveal_strlit("account_bonds");
    assert("account_bonds"@ =~= seq!['a', 'c', 'c', 'o', 'u', 'n', 't', '_', 'b', 'o', 'n', 'd', 's']);
    reveal_strlit("pending_rewards");
    assert("pending_rewards"@ =~= seq!['p', 'e', 'n', 'd', 'i', 'n', 'g', '_', 'r', 'e', 'w', 'a', 'r', 'd', 's']);
    reveal_strlit("completed_incentive_programs");
    assert("completed_incentive_programs"@ =~= seq!['c', 'o', 'm', 'p', 'l', 'e', 't', 'e', 'd', '_', 'i', 'n', 'c', 'e', 'n', 't', 'i', 'v', 'e', '_', 'p', 'r', 'o', 'g', 'r', 'a', 'm', 's']);
    reveal_strlit("ongoing_incentive_programs");
    assert("ongoing_incentive_programs"@ =~= seq!['o', 'n', 'g', 'o', 'i', 'n', 'g', '_', 'i', 'n', 'c', 'e', 'n', 't', 'i', 'v', 'e', '_', 'p', 'r', 'o', 'g', 'r', 'a', 'm', 's']);
    reveal_strlit("upcoming_incentive_programs");
    assert("upcoming_incentive_programs"@ =~= seq!['u', 'p', 'c', 'o', 'm', 'i', 'n', 'g', '_', 'i', 'n', 'c', 'e', 'n', 't', 'i', 'v', 'e', '_', 'p', 'r', 'o', 'g', 'r', 'a', 'm', 's']);
    reveal_strlit("incentive_program");
    assert("incentive_program"@ =~= seq!['i', 'n', 'c', 'e', 'n', 't', 'i', 'v', 'e', '_', 'p', 'r', 'o', 'g', 'r', 'a', 'm']);
    reveal_strlit("current_rates");
    assert("current_rates"@ =~= seq!['c', 'u', 'r', 'r', 'e', 'n', 't', '_', 'r', 'a', 't', 'e', 's']);
    reveal_strlit("actual_rates");
    assert("actual_rates"@ =~= seq!['a', 'c', 't', 'u', 'a', 'l', '_', 'r', 'a', 't', 'e', 's']);
    reveal_strlit("last_reward_time");
    assert("last_reward_time"@ =~= seq!['l', 'a', 's', 't', '_', 'r', 'e', 'w', 'a', 'r', 'd', '_', 't', 'i', 'm', 'e']);
    reveal_strlit("metoken_parameters");
    assert("metoken_parameters"@ =~= seq!['m', 'e', 't', 'o', 'k', 'e', 'n', '_', 'p', 'a', 'r', 'a', 'm', 'e', 't', 'e', 'r', 's']);
    reveal_strlit("metoken_indexes");
    assert("metoken_indexes"@ =~= seq!['m', 'e', 't', 'o', 'k', 'e', 'n', '_', 'i', 'n', 'd', 'e', 'x', 'e', 's']);
    reveal_strlit("metoken_swapfee");
    assert("metoken_swapfee"@ =~= seq!['m', 'e', 't', 'o', 'k', 'e', 'n', '_', 's', 'w', 'a', 'p', 'f', 'e', 'e']);
    reveal_strlit("metoken_redeemfee");
    assert("metoken_redeemfee"@ =~= seq!['m', 'e', 't', 'o', 'k', 'e', 'n', '_', 'r', 'e', 'd', 'e', 'e', 'm', 'f', 'e', 'e']);
    reveal_strlit("metoken_indexbalances");
    assert("metoken_indexbalances"@ =~= seq!['m', 'e', 't', 'o', 'k', 'e', 'n', '_', 'i', 'n', 'd', 'e', 'x', 'b', 'a', 'l', 'a', 'n', 'c', 'e', 's']);
    reveal_strlit("metoken_indexprice");
    assert("metoken_indexprice"@ =~= seq!['m', 'e', 't', 'o', 'k', 'e', 'n', '_', 'i', 'n', 'd', 'e', 'x', 'p', 'r', 'i', 'c', 'e']);
}

/// Every value's wire record is a single-entry object.
proof fn lemma_query_slot_shape(x: QuerySlot)
    ensures
        x.jval() is Obj,
        x.jval()->Obj_0.len() == 1,
{
    match x {
        QuerySlot::ExchangeRates(q) => {
            assert(x.jval()->Obj_0.len() == 1);
        },
        QuerySlot::LeverageParameters(q) => {
            assert(x.jval()->Obj_0.len() == 1);
        },
        QuerySlot::MarketSummary(q) => {
            assert(x.jval()->Obj_0.len() == 1);
        },
        QuerySlot::AccountBalances(q) => {
            assert(x.jval()->Obj_0.len() == 1);
        },
        QuerySlot::AccountSummary(q) => {
            assert(x.jval()->Obj_0.len() == 1);
        },
        QuerySlot::RegisteredTokens(q) => {
            assert(x.jval()->Obj_0.len() == 1);
        },
        QuerySlot::LiquidationTargets(q) => {
            assert(x.jval()->Obj_0.len() == 1);
        },
        QuerySlot::ActiveExchangeRates(q) => {
            assert(x.jval()->Obj_0.len() == 1);
        },
        QuerySlot::FeederDelegation(q) => {
            assert(x.jval()->Obj_0.len() == 1);
        },
        QuerySlot::MissCounter(q) => {
            assert(x.jval()->Obj_0.len() == 1);
        },
        QuerySlot::SlashWindow(q) => {
            assert(x.jval()->Obj_0.len() == 1);
        },
        QuerySlot::AggregatePrevote(q) => {
            assert(x.jval()->Obj_0.len() == 1);
        },
        QuerySlot::AggregatePrevotes(q) => {
            assert(x.jval()->Obj_0.len() == 1);
        },
        QuerySlot::AggregateVote(q) => {
            assert(x.jval()->Obj_0.len() == 1);
        },
        QuerySlot::AggregateVotes(q) => {
            assert(x.jval()->Obj_0.len() == 1);
        },
        QuerySlot::OracleParams(q) => {
            assert(x.jval()->Obj_0.len() == 1);
        },
        QuerySlot::BadDebts(q) => {
            assert(x.jval()->Obj_0.len() == 1);
        },
        QuerySlot::MaxWithdraw(q) => {
            assert(x.jval()->Obj_0.len() == 1);
        },
        QuerySlot::MaxBorrow(q) => {
            assert(x.jval()->Obj_0.len() == 1);
        },
        QuerySlot::Medians(q) => {
            assert(x.jval()->Obj_0.len() == 1);
        },
        QuerySlot::MedianDeviations(q) => {
            assert(x.jval()->Obj_0.len() == 1);
        },
        QuerySlot::IncentiveParameters(q) => {
            assert(x.jval()->Obj_0.len() == 1);
        },
        QuerySlot::TotalBonded(q) => {
            assert(x.jval()->Obj_0.len() == 1);
        },
        QuerySlot::TotalUnbonding(q) => {
            assert(x.jval()->Obj_0.len() == 1);
        },
        QuerySlot::AccountBonds(q) => {
            assert(x.jval()->Obj_0.len() == 1);
        },
        QuerySlot::PendingRewards(q) => {
            assert(x.jval()->Obj_0.len() == 1);
        },
        QuerySlot::CompletedIncentivePrograms(q) => {
            assert(x.jval()->Obj_0.len() == 1);
        },
        QuerySlot::OngoingIncentivePrograms(q) => {
            assert(x.jval()->Obj_0.len() == 1);
        },
        QuerySlot::UpcomingIncentivePrograms(q) => {
            assert(x.jval()->Obj_0.len() == 1);
        },
        QuerySlot::IncentiveProgram(q) => {
            assert(x.jval()->Obj_0.len() == 1);
        },
        QuerySlot::CurrentRates(q) => {
            assert(x.jval()->Obj_0.len() == 1);
        },
        QuerySlot::ActualRates(q) => {
            assert(x.jval()->Obj_0.len() == 1);
        },
        QuerySlot::LastRewardTime(q) => {
            assert(x.jval()->Obj_0.len() == 1);
        },
        QuerySlot::MetokenParameters(q) => {
            assert(x.jval()->Obj_0.len() == 1);
        },
        QuerySlot::MetokenIndexes(q) => {
            assert(x.jval()->Obj_0.len() == 1);
        },
        QuerySlot::MetokenSwapfee(q) => {
            assert(x.jval()->Obj_0.len() == 1);
        },
        QuerySlot::MetokenRedeemfee(q) => {
            assert(x.jval()->Obj_0.len() == 1);
        },
        QuerySlot::MetokenIndexbalances(q) => {
            assert(x.jval()->Obj_0.len() == 1);
        },
        QuerySlot::MetokenIndexprice(q) => {
            assert(x.jval()->Obj_0.len() == 1);
        },
    }
}

/// A value whose wire record is this single entry is the variant the
/// entry's key names, and the entry's payload is that variant's.
proof fn lemma_query_slot_tag(x: QuerySlot, e: (Seq<char>, JsonSpec))
    requires
        JsonSpec::Obj(seq![e]) == x.jval(),
    ensures
        ({
            ||| (x matches QuerySlot::ExchangeRates(q) && e == ("exchange_rates"@, q.jval()))
            ||| (x matches QuerySlot::LeverageParameters(q) && e == ("leverage_parameters"@, q.jval()))
            ||| (x matches QuerySlot::MarketSummary(q) && e == ("market_summary"@, q.jval()))
            ||| (x matches QuerySlot::AccountBalances(q) && e == ("account_balances"@, q.jval()))
            ||| (x matches QuerySlot::AccountSummary(q) && e == ("account_summary"@, q.jval()))
            ||| (x matches QuerySlot::RegisteredTokens(q) && e == ("registered_tokens"@, q.jval()))
            ||| (x matches QuerySlot::LiquidationTargets(q) && e == ("liquidation_targets"@, q.jval()))
            ||| (x matches QuerySlot::ActiveExchangeRates(q) && e == ("active_exchange_rates"@, q.jval()))
            ||| (x matches QuerySlot::FeederDelegation(q) && e == ("feeder_delegation"@, q.jval()))
            ||| (x matches QuerySlot::MissCounter(q) && e == ("miss_counter"@, q.jval()))
            ||| (x matches QuerySlot::SlashWindow(q) && e == ("slash_window"@, q.jval()))
            ||| (x matches QuerySlot::AggregatePrevote(q) && e == ("aggregate_prevote"@, q.jval()))
            ||| (x matches QuerySlot::AggregatePrevotes(q) && e == ("aggregate_prevotes"@, q.jval()))
            ||| (x matches QuerySlot::AggregateVote(q) && e == ("aggregate_vote"@, q.jval()))
            ||| (x matches QuerySlot::AggregateVotes(q) && e == ("aggregate_votes"@, q.jval()))
            ||| (x matches QuerySlot::OracleParams(q) && e == ("oracle_params"@, q.jval()))
            ||| (x matches QuerySlot::BadDebts(q) && e == ("bad_debts_params"@, q.jval()))
            ||| (x matches QuerySlot::MaxWithdraw(q) && e == ("max_withdraw_params"@, q.jval()))
            ||| (x matches QuerySlot::MaxBorrow(q) && e == ("max_borrow_params"@, q.jval()))
            ||| (x matches QuerySlot::Medians(q) && e == ("medians_params"@, q.jval()))
            ||| (x matches QuerySlot::MedianDeviations(q) && e == ("median_deviations_params"@, q.jval()))
            ||| (x matches QuerySlot::IncentiveParameters(q) && e == ("incentive_parameters"@, q.jval()))
            ||| (x matches QuerySlot::TotalBonded(q) && e == ("total_bonded"@, q.jval()))
            ||| (x matches QuerySlot::TotalUnbonding(q) && e == ("total_unbonding"@, q.jval()))
            ||| (x matches QuerySlot::AccountBonds(q) && e == ("account_bonds"@, q.jval()))
            ||| (x matches QuerySlot::PendingRewards(q) && e == ("pending_rewards"@, q.jval()))
            ||| (x matches QuerySlot::CompletedIncentivePrograms(q) && e == ("completed_incentive_programs"@, q.jval()))
            ||| (x matches QuerySlot::OngoingIncentivePrograms(q) && e == ("ongoing_incentive_programs"@, q.jval()))
            ||| (x matches QuerySlot::UpcomingIncentivePrograms(q) && e == ("upcoming_incentive_programs"@, q.jval()))
            ||| (x matches QuerySlot::IncentiveProgram(q) && e == ("incentive_program"@, q.jval()))
            ||| (x matches QuerySlot::CurrentRates(q) && e == ("current_rates"@, q.jval()))
            ||| (x matches QuerySlot::ActualRates(q) && e == ("actual_rates"@, q.jval()))
            ||| (x matches QuerySlot::LastRewardTime(q) && e == ("last_reward_time"@, q.jval()))
            ||| (x matches QuerySlot::MetokenParameters(q) && e == ("metoken_parameters"@, q.jval()))
            ||| (x matches QuerySlot::MetokenIndexes(q) && e == ("metoken_indexes"@, q.jval()))
            ||| (x matches QuerySlot::MetokenSwapfee(q) && e == ("metoken_swapfee"@, q.jval()))
            ||| (x matches QuerySlot::MetokenRedeemfee(q) && e == ("metoken_redeemfee"@, q.jval()))
            ||| (x matches QuerySlot::MetokenIndexbalances(q) && e == ("metoken_indexbalances"@, q.jval()))
            ||| (x matches QuerySlot::MetokenIndexprice(q) && e == ("metoken_indexprice"@, q.jval()))
        }),
{
    match x {
        QuerySlot::ExchangeRates(q) => {
            assert(x.jval()->Obj_0[0] == ("exchange_rates"@, q.jval()));
            assert(e == ("exchange_rates"@, q.jval()));
        },
        QuerySlot::LeverageParameters(q) => {
            assert(x.jval()->Obj_0[0] == ("leverage_parameters"@, q.jval()));
            assert(e == ("leverage_parameters"@, q.jval()));
        },
        QuerySlot::MarketSummary(q) => {
            assert(x.jval()->Obj_0[0] == ("market_summary"@, q.jval()));
            assert(e == ("market_summary"@, q.jval()));
        },
        QuerySlot::AccountBalances(q) => {
            assert(x.jval()->Obj_0[0] == ("account_balances"@, q.jval()));
            assert(e == ("account_balances"@, q.jval()));
        },
        QuerySlot::AccountSummary(q) => {
            assert(x.jval()->Obj_0[0] == ("account_summary"@, q.jval()));
            assert(e == ("account_summary"@, q.jval()));
        },
        QuerySlot::RegisteredTokens(q) => {
            assert(x.jval()->Obj_0[0] == ("registered_tokens"@, q.jval()));
            assert(e == ("registered_tokens"@, q.jval()));
        },
        QuerySlot::LiquidationTargets(q) => {
            assert(x.jval()->Obj_0[0] == ("liquidation_targets"@, q.jval()));
            assert(e == ("liquidation_targets"@, q.jval()));
        },
        QuerySlot::ActiveExchangeRates(q) => {
            assert(x.jval()->Obj_0[0] == ("active_exchange_rates"@, q.jval()));
            assert(e == ("active_exchange_rates"@, q.jval()));
        },
        QuerySlot::FeederDelegation(q) => {
            assert(x.jval()->Obj_0[0] == ("feeder_delegation"@, q.jval()));
            assert(e == ("feeder_delegation"@, q.jval()));
        },
        QuerySlot::MissCounter(q) => {
            assert(x.jval()->Obj_0[0] == ("miss_counter"@, q.jval()));
            assert(e == ("miss_counter"@, q.jval()));
        },
        QuerySlot::SlashWindow(q) => {
            assert(x.jval()->Obj_0[0] == ("slash_window"@, q.jval()));
            assert(e == ("slash_window"@, q.jval()));
        },
        QuerySlot::AggregatePrevote(q) => {
            assert(x.jval()->Obj_0[0] == ("aggregate_prevote"@, q.jval()));
            assert(e == ("aggregate_prevote"@, q.jval()));
        },
        QuerySlot::AggregatePrevotes(q) => {
            assert(x.jval()->Obj_0[0] == ("aggregate_prevotes"@, q.jval()));
            assert(e == ("aggregate_prevotes"@, q.jval()));
        },
        QuerySlot::AggregateVote(q) => {
            assert(x.jval()->Obj_0[0] == ("aggregate_vote"@, q.jval()));
            assert(e == ("aggregate_vote"@, q.jval()));
        },
        QuerySlot::AggregateVotes(q) => {
            assert(x.jval()->Obj_0[0] == ("aggregate_votes"@, q.jval()));
            assert(e == ("aggregate_votes"@, q.jval()));
        },
        QuerySlot::OracleParams(q) => {
            assert(x.jval()->Obj_0[0] == ("oracle_params"@, q.jval()));
            assert(e == ("oracle_params"@, q.jval()));
        },
        QuerySlot::BadDebts(q) => {
            assert(x.jval()->Obj_0[0] == ("bad_debts_params"@, q.jval()));
            assert(e == ("bad_debts_params"@, q.jval()));
        },
        QuerySlot::MaxWithdraw(q) => {
            assert(x.jval()->Obj_0[0] == ("max_withdraw_params"@, q.jval()));
            assert(e == ("max_withdraw_params"@, q.jval()));
        },
        QuerySlot::MaxBorrow(q) => {
            assert(x.jval()->Obj_0[0] == ("max_borrow_params"@, q.jval()));
            assert(e == ("max_borrow_params"@, q.jval()));
        },
        QuerySlot::Medians(q) => {
            assert(x.jval()->Obj_0[0] == ("medians_params"@, q.jval()));
            assert(e == ("medians_params"@, q.jval()));
        },
        QuerySlot::MedianDeviations(q) => {
            assert(x.jval()->Obj_0[0] == ("median_deviations_params"@, q.jval()));
            assert(e == ("median_deviations_params"@, q.jval()));
        },
        QuerySlot::IncentiveParameters(q) => {
            assert(x.jval()->Obj_0[0] == ("incentive_parameters"@, q.jval()));
            assert(e == ("incentive_parameters"@, q.jval()));
        },
        QuerySlot::TotalBonded(q) => {
            assert(x.jval()->Obj_0[0] == ("total_bonded"@, q.jval()));
            assert(e == ("total_bonded"@, q.jval()));
        },
        QuerySlot::TotalUnbonding(q) => {
            assert(x.jval()->Obj_0[0] == ("total_unbonding"@, q.jval()));
            assert(e == ("total_unbonding"@, q.jval()));
        },
        QuerySlot::AccountBonds(q) => {
            assert(x.jval()->Obj_0[0] == ("account_bonds"@, q.jval()));
            assert(e == ("account_bonds"@, q.jval()));
        },
        QuerySlot::PendingRewards(q) => {
            assert(x.jval()->Obj_0[0] == ("pending_rewards"@, q.jval()));
            assert(e == ("pending_rewards"@, q.jval()));
        },
        QuerySlot::CompletedIncentivePrograms(q) => {
            assert(x.jval()->Obj_0[0] == ("completed_incentive_programs"@, q.jval()));
            assert(e == ("completed_incentive_programs"@, q.jval()));
        },
        QuerySlot::OngoingIncentivePrograms(q) => {
            assert(x.jval()->Obj_0[0] == ("ongoing_incentive_programs"@, q.jval()));
            assert(e == ("ongoing_incentive_programs"@, q.jval()));
        },
        QuerySlot::UpcomingIncentivePrograms(q) => {
            assert(x.jval()->Obj_0[0] == ("upcoming_incentive_programs"@, q.jval()));
            assert(e == ("upcoming_incentive_programs"@, q.jval()));
        },
        QuerySlot::IncentiveProgram(q) => {
            assert(x.jval()->Obj_0[0] == ("incentive_program"@, q.jval()));
            assert(e == ("incentive_program"@, q.jval()));
        },
        QuerySlot::CurrentRates(q) => {
            assert(x.jval()->Obj_0[0] == ("current_rates"@, q.jval()));
            assert(e == ("current_rates"@, q.jval()));
        },
        QuerySlot::ActualRates(q) => {
            assert(x.jval()->Obj_0[0] == ("actual_rates"@, q.jval()));
            assert(e == ("actual_rates"@, q.jval()));
        },
        QuerySlot::LastRewardTime(q) => {
            assert(x.jval()->Obj_0[0] == ("last_reward_time"@, q.jval()));
            assert(e == ("last_reward_time"@, q.jval()));
        },
        QuerySlot::MetokenParameters(q) => {
            assert(x.jval()->Obj_0[0] == ("metoken_parameters"@, q.jval()));
            assert(e == ("metoken_parameters"@, q.jval()));
        },
        QuerySlot::MetokenIndexes(q) => {
            assert(x.jval()->Obj_0[0] == ("metoken_indexes"@, q.jval()));
            assert(e == ("metoken_indexes"@, q.jval()));
        },
        QuerySlot::MetokenSwapfee(q) => {
            assert(x.jval()->Obj_0[0] == ("metoken_swapfee"@, q.jval()));
            assert(e == ("metoken_swapfee"@, q.jval()));
        },
        QuerySlot::MetokenRedeemfee(q) => {
            assert(x.jval()->Obj_0[0] == ("metoken_redeemfee"@, q.jval()));
            assert(e == ("metoken_redeemfee"@, q.jval()));
        },
        QuerySlot::MetokenIndexbalances(q) => {
            assert(x.jval()->Obj_0[0] == ("metoken_indexbalances"@, q.jval()));
            assert(e == ("metoken_indexbalances"@, q.jval()));
        },
        QuerySlot::MetokenIndexprice(q) => {
            assert(x.jval()->Obj_0[0] == ("metoken_indexprice"@, q.jval()));
            assert(e == ("metoken_indexprice"@, q.jval()));
        },
    }
}

/// A single-entry wire shape under this key decodes only through its
/// own payload type.
proof fn lemma_query_slot_reject_exchange_rates(e: (Seq<char>, JsonSpec))
    requires
        e.0 == "exchange_rates"@,
        forall|y: ExchangeRatesParams| e.1 != #[trigger] y.jval(),
    ensures
        forall|x: QuerySlot| JsonSpec::Obj(seq![e]) != #[trigger] x.jval(),
{
    lemma_query_slot_keys();
    assert forall|x: QuerySlot| JsonSpec::Obj(seq![e]) != #[trigger] x.jval() by {
        if JsonSpec::Obj(seq![e]) == x.jval() {
            lemma_query_slot_tag(x, e);
            match x {
                QuerySlot::ExchangeRates(q) => {
                    assert(e.1 == q.jval());
                },
                _ => {},
            }
        }
    }
}

/// A single-entry wire shape under this key decodes only through its
/// own payload type.
proof fn lemma_query_slot_reject_leverage_parameters(e: (Seq<char>, JsonSpec))
    requires
        e.0 == "leverage_parameters"@,
        forall|y: LeverageParametersParams| e.1 != #[trigger] y.jval(),
    ensures
        forall|x: QuerySlot| JsonSpec::Obj(seq![e]) != #[trigger] x.jval(),
{
    lemma_query_slot_keys();
    assert forall|x: QuerySlot| JsonSpec::Obj(seq![e]) != #[trigger] x.jval() by {
        if JsonSpec::Obj(seq![e]) == x.jval() {
            lemma_query_slot_tag(x, e);
            match x {
                QuerySlot::LeverageParameters(q) => {
                    assert(e.1 == q.jval());
                },
                _ => {},
            }
        }
    }
}

/// A single-entry wire shape under this key decodes only through its
/// own payload type.
proof fn lemma_query_slot_reject_market_summary(e: (Seq<char>, JsonSpec))
    requires
        e.0 == "market_summary"@,
        forall|y: MarketSummaryParams| e.1 != #[trigger] y.jval(),
    ensures
        forall|x: QuerySlot| JsonSpec::Obj(seq![e]) != #[trigger] x.jval(),
{
    lemma_query_slot_keys();
    assert forall|x: QuerySlot| JsonSpec::Obj(seq![e]) != #[trigger] x.jval() by {
        if JsonSpec::Obj(seq![e]) == x.jval() {
            lemma_query_slot_tag(x, e);
            match x {
                QuerySlot::MarketSummary(q) => {
                    assert(e.1 == q.jval());
                },
                _ => {},
            }
        }
    }
}

/// A single-entry wire shape under this key decodes only through its
/// own payload type.
proof fn lemma_query_slot_reject_account_balances(e: (Seq<char>, JsonSpec))
    requires
        e.0 == "account_balances"@,
        forall|y: AccountBalancesParams| e.1 != #[trigger] y.jval(),
    ensures
        forall|x: QuerySlot| JsonSpec::Obj(seq![e]) != #[trigger] x.jval(),
{
    lemma_query_slot_keys();
    assert forall|x: QuerySlot| JsonSpec::Obj(seq![e]) != #[trigger] x.jval() by {
        if JsonSpec::Obj(seq![e]) == x.jval() {
            lemma_query_slot_tag(x, e);
            match x {
                QuerySlot::AccountBalances(q) => {
                    assert(e.1 == q.jval());
                },
                _ => {},
            }
        }
    }
}

/// A single-entry wire shape under this key decodes only through its
/// own payload type.
proof fn lemma_query_slot_reject_account_summary(e: (Seq<char>, JsonSpec))
    requires
        e.0 == "account_summary"@,
        forall|y: AccountSummaryParams| e.1 != #[trigger] y.jval(),
    ensures
        forall|x: QuerySlot| JsonSpec::Obj(seq![e]) != #[trigger] x.jval(),
{
    lemma_query_slot_keys();
    assert forall|x: QuerySlot| JsonSpec::Obj(seq![e]) != #[trigger] x.jval() by {
        if JsonSpec::Obj(seq![e]) == x.jval() {
            lemma_query_slot_tag(x, e);
            match x {
                QuerySlot::AccountSummary(q) => {
                    assert(e.1 == q.jval());
                },
                _ => {},
            }
        }
    }
}

/// A single-entry wire shape under this key decodes only through its
/// own payload type.
proof fn lemma_query_slot_reject_registered_tokens(e: (Seq<char>, JsonSpec))
    requires
        e.0 == "registered_tokens"@,
        forall|y: RegisteredTokensParams| e.1 != #[trigger] y.jval(),
    ensures
        forall|x: QuerySlot| JsonSpec::Obj(seq![e]) != #[trigger] x.jval(),
{
    lemma_query_slot_keys();
    assert forall|x: QuerySlot| JsonSpec::Obj(seq![e]) != #[trigger] x.jval() by {
        if JsonSpec::Obj(seq![e]) == x.jval() {
            lemma_query_slot_tag(x, e);
            match x {
                QuerySlot::RegisteredTokens(q) => {
                    assert(e.1 == q.jval());
                },
                _ => {},
            }
        }
    }
}

/// A single-entry wire shape under this key decodes only through its
/// own payload type.
proof fn lemma_query_slot_reject_liquidation_targets(e: (Seq<char>, JsonSpec))
    requires
        e.0 == "liquidation_targets"@,
        forall|y: LiquidationTargetsParams| e.1 != #[trigger] y.jval(),
    ensures
        forall|x: QuerySlot| JsonSpec::Obj(seq![e]) != #[trigger] x.jval(),
{
    lemma_query_slot_keys();
    assert forall|x: QuerySlot| JsonSpec::Obj(seq![e]) != #[trigger] x.jval() by {
        if JsonSpec::Obj(seq![e]) == x.jval() {
            lemma_query_slot_tag(x, e);
            match x {
                QuerySlot::LiquidationTargets(q) => {
                    assert(e.1 == q.jval());
                },
                _ => {},
            }
        }
    }
}

/// A single-entry wire shape under this key decodes only through its
/// own payload type.
proof fn lemma_query_slot_reject_active_exchange_rates(e: (Seq<char>, JsonSpec))
    requires
        e.0 == "active_exchange_rates"@,
        forall|y: ActiveExchangeRatesParams| e.1 != #[trigger] y.jval(),
    ensures
        forall|x: QuerySlot| JsonSpec::Obj(seq![e]) != #[trigger] x.jval(),
{
    lemma_query_slot_keys();
    assert forall|x: QuerySlot| JsonSpec::Obj(seq![e]) != #[trigger] x.jval() by {
        if JsonSpec::Obj(seq![e]) == x.jval() {
            lemma_query_slot_tag(x, e);
            match x {
                QuerySlot::ActiveExchangeRates(q) => {
                    assert(e.1 == q.jval());
                },
                _ => {},
            }
        }
    }
}

/// A single-entry wire shape under this key decodes only through its
/// own payload type.
proof fn lemma_query_slot_reject_feeder_delegation(e: (Seq<char>, JsonSpec))
    requires
        e.0 == "feeder_delegation"@,
        forall|y: FeederDelegationParams| e.1 != #[trigger] y.jval(),
    ensures
        forall|x: QuerySlot| JsonSpec::Obj(seq![e]) != #[trigger] x.jval(),
{
    lemma_query_slot_keys();
    assert forall|x: QuerySlot| JsonSpec::Obj(seq![e]) != #[trigger] x.jval() by {
        if JsonSpec::Obj(seq![e]) == x.jval() {
            lemma_query_slot_tag(x, e);
            match x {
                QuerySlot::FeederDelegation(q) => {
                    assert(e.1 == q.jval());
                },
                _ => {},
            }
        }
    }
}

/// A single-entry wire shape under this key decodes only through its
/// own payload type.
proof fn lemma_query_slot_reject_miss_counter(e: (Seq<char>, JsonSpec))
    requires
        e.0 == "miss_counter"@,
        forall|y: MissCounterParams| e.1 != #[trigger] y.jval(),
    ensures
        forall|x: QuerySlot| JsonSpec::Obj(seq![e]) != #[trigger] x.jval(),
{
    lemma_query_slot_keys();
    assert forall|x: QuerySlot| JsonSpec::Obj(seq![e]) != #[trigger] x.jval() by {
        if JsonSpec::Obj(seq![e]) == x.jval() {
            lemma_query_slot_tag(x, e);
            match x {
                QuerySlot::MissCounter(q) => {
                    assert(e.1 == q.jval());
                },
                _ => {},
            }
        }
    }
}

/// A single-entry wire shape under this key decodes only through its
/// own payload type.
proof fn lemma_query_slot_reject_slash_window(e: (Seq<char>, JsonSpec))
    requires
        e.0 == "slash_window"@,
        forall|y: SlashWindowParams| e.1 != #[trigger] y.jval(),
    ensures
        forall|x: QuerySlot| JsonSpec::Obj(seq![e]) != #[trigger] x.jval(),
{
    lemma_query_slot_keys();
    assert forall|x: QuerySlot| JsonSpec::Obj(seq![e]) != #[trigger] x.jval() by {
        if JsonSpec::Obj(seq![e]) == x.jval() {
            lemma_query_slot_tag(x, e);
            match x {
                QuerySlot::SlashWindow(q) => {
                    assert(e.1 == q.jval());
                },
                _ => {},
            }
        }
    }
}

/// A single-entry wire shape under this key decodes only through its
/// own payload type.
proof fn lemma_query_slot_reject_aggregate_prevote(e: (Seq<char>, JsonSpec))
    requires
        e.0 == "aggregate_prevote"@,
        forall|y: AggregatePrevoteParams| e.1 != #[trigger] y.jval(),
    ensures
        forall|x: QuerySlot| JsonSpec::Obj(seq![e]) != #[trigger] x.jval(),
{
    lemma_query_slot_keys();
    assert forall|x: QuerySlot| JsonSpec::Obj(seq![e]) != #[trigger] x.jval() by {
        if JsonSpec::Obj(seq![e]) == x.jval() {
            lemma_query_slot_tag(x, e);
            match x {
                QuerySlot::AggregatePrevote(q) => {
                    assert(e.1 == q.jval());
                },
                _ => {},
            }
        }
    }
}

/// A single-entry wire shape under this key decodes only through its
/// own payload type.
proof fn lemma_query_slot_reject_aggregate_prevotes(e: (Seq<char>, JsonSpec))
    requires
        e.0 == "aggregate_prevotes"@,
        forall|y: AggregatePrevotesParams| e.1 != #[trigger] y.jval(),
    ensures
        forall|x: QuerySlot| JsonSpec::Obj(seq![e]) != #[trigger] x.jval(),
{
    lemma_query_slot_keys();
    assert forall|x: QuerySlot| JsonSpec::Obj(seq![e]) != #[trigger] x.jval() by {
        if JsonSpec::Obj(seq![e]) == x.jval() {
            lemma_query_slot_tag(x, e);
            match x {
                QuerySlot::AggregatePrevotes(q) => {
                    assert(e.1 == q.jval());
                },
                _ => {},
            }
        }
    }
}

/// A single-entry wire shape under this key decodes only through its
/// own payload type.
proof fn lemma_query_slot_reject_aggregate_vote(e: (Seq<char>, JsonSpec))
    requires
        e.0 == "aggregate_vote"@,
        forall|y: AggregateVoteParams| e.1 != #[trigger] y.jval(),
    ensures
        forall|x: QuerySlot| JsonSpec::Obj(seq![e]) != #[trigger] x.jval(),
{
    lemma_query_slot_keys();
    assert forall|x: QuerySlot| JsonSpec::Obj(seq![e]) != #[trigger] x.jval() by {
        if JsonSpec::Obj(seq![e]) == x.jval() {
            lemma_query_slot_tag(x, e);
            match x {
                QuerySlot::AggregateVote(q) => {
                    assert(e.1 == q.jval());
                },
                _ => {},
            }
        }
    }
}

/// A single-entry wire shape under this key decodes only through its
/// own payload type.
proof fn lemma_query_slot_reject_aggregate_votes(e: (Seq<char>, JsonSpec))
    requires
        e.0 == "aggregate_votes"@,
        forall|y: AggregateVotesParams| e.1 != #[trigger] y.jval(),
    ensures
        forall|x: QuerySlot| JsonSpec::Obj(seq![e]) != #[trigger] x.jval(),
{
    lemma_query_slot_keys();
    assert forall|x: QuerySlot| JsonSpec::Obj(seq![e]) != #[trigger] x.jval() by {
        if JsonSpec::Obj(seq![e]) == x.jval() {
            lemma_query_slot_tag(x, e);
            match x {
                QuerySlot::AggregateVotes(q) => {
                    assert(e.1 == q.jval());
                },
                _ => {},
            }
        }
    }
}

/// A single-entry wire shape under this key decodes only through its
/// own payload type.
proof fn lemma_query_slot_reject_oracle_params(e: (Seq<char>, JsonSpec))
    requires
        e.0 == "oracle_params"@,
        forall|y: OracleParametersParams| e.1 != #[trigger] y.jval(),
    ensures
        forall|x: QuerySlot| JsonSpec::Obj(seq![e]) != #[trigger] x.jval(),
{
    lemma_query_slot_keys();
    assert forall|x: QuerySlot| JsonSpec::Obj(seq![e]) != #[trigger] x.jval() by {
        if JsonSpec::Obj(seq![e]) == x.jval() {
            lemma_query_slot_tag(x, e);
            match x {
                QuerySlot::OracleParams(q) => {
                    assert(e.1 == q.jval());
                },
                _ => {},
            }
        }
    }
}

/// A single-entry wire shape under this key decodes only through its
/// own payload type.
proof fn lemma_query_slot_reject_bad_debts_params(e: (Seq<char>, JsonSpec))
    requires
        e.0 == "bad_debts_params"@,
        forall|y: BadDebtsParams| e.1 != #[trigger] y.jval(),
    ensures
        forall|x: QuerySlot| JsonSpec::Obj(seq![e]) != #[trigger] x.jval(),
{
    lemma_query_slot_keys();
    assert forall|x: QuerySlot| JsonSpec::Obj(seq![e]) != #[trigger] x.jval() by {
        if JsonSpec::Obj(seq![e]) == x.jval() {
            lemma_query_slot_tag(x, e);
            match x {
                QuerySlot::BadDebts(q) => {
                    assert(e.1 == q.jval());
                },
                _ => {},
            }
        }
    }
}

/// A single-entry wire shape under this key decodes only through its
/// own payload type.
proof fn lemma_query_slot_reject_max_withdraw_params(e: (Seq<char>, JsonSpec))
    requires
        e.0 == "max_withdraw_params"@,
        forall|y: MaxWithdrawParams| e.1 != #[trigger] y.jval(),
    ensures
        forall|x: QuerySlot| JsonSpec::Obj(seq![e]) != #[trigger] x.jval(),
{
    lemma_query_slot_keys();
    assert forall|x: QuerySlot| JsonSpec::Obj(seq![e]) != #[trigger] x.jval() by {
        if JsonSpec::Obj(seq![e]) == x.jval() {
            lemma_query_slot_tag(x, e);
            match x {
                QuerySlot::MaxWithdraw(q) => {
                    assert(e.1 == q.jval());
                },
                _ => {},
            }
        }
    }
}

/// A single-entry wire shape under this key decodes only through its
/// own payload type.
proof fn lemma_query_slot_reject_max_borrow_params(e: (Seq<char>, JsonSpec))
    requires
        e.0 == "max_borrow_params"@,
        forall|y: MaxBorrowParams| e.1 != #[trigger] y.jval(),
    ensures
        forall|x: QuerySlot| JsonSpec::Obj(seq![e]) != #[trigger] x.jval(),
{
    lemma_query_slot_keys();
    assert forall|x: QuerySlot| JsonSpec::Obj(seq![e]) != #[trigger] x.jval() by {
        if JsonSpec::Obj(seq![e]) == x.jval() {
            lemma_query_slot_tag(x, e);
            match x {
                QuerySlot::MaxBorrow(q) => {
                    assert(e.1 == q.jval());
                },
                _ => {},
            }
        }
    }
}

/// A single-entry wire shape under this key decodes only through its
/// own payload type.
proof fn lemma_query_slot_reject_medians_params(e: (Seq<char>, JsonSpec))
    requires
        e.0 == "medians_params"@,
        forall|y: MediansParams| e.1 != #[trigger] y.jval(),
    ensures
        forall|x: QuerySlot| JsonSpec::Obj(seq![e]) != #[trigger] x.jval(),
{
    lemma_query_slot_keys();
    assert forall|x: QuerySlot| JsonSpec::Obj(seq![e]) != #[trigger] x.jval() by {
        if JsonSpec::Obj(seq![e]) == x.jval() {
            lemma_query_slot_tag(x, e);
            match x {
                QuerySlot::Medians(q) => {
                    assert(e.1 == q.jval());
                },
                _ => {},
            }
        }
    }
}

/// A single-entry wire shape under this key decodes only through its
/// own payload type.
proof fn lemma_query_slot_reject_median_deviations_params(e: (Seq<char>, JsonSpec))
    requires
        e.0 == "median_deviations_params"@,
        forall|y: MedianDeviationsParams| e.1 != #[trigger] y.jval(),
    ensures
        forall|x: QuerySlot| JsonSpec::Obj(seq![e]) != #[trigger] x.jval(),
{
    lemma_query_slot_keys();
    assert forall|x: QuerySlot| JsonSpec::Obj(seq![e]) != #[trigger] x.jval() by {
        if JsonSpec::Obj(seq![e]) == x.jval() {
            lemma_query_slot_tag(x, e);
            match x {
                QuerySlot::MedianDeviations(q) => {
                    assert(e.1 == q.jval());
                },
                _ => {},
            }
        }
    }
}

/// A single-entry wire shape under this key decodes only through its
/// own payload type.
proof fn lemma_query_slot_reject_incentive_parameters(e: (Seq<char>, JsonSpec))
    requires
        e.0 == "incentive_parameters"@,
        forall|y: IncentiveParametersParams| e.1 != #[trigger] y.jval(),
    ensures
        forall|x: QuerySlot| JsonSpec::Obj(seq![e]) != #[trigger] x.jval(),
{
    lemma_query_slot_keys();
    assert forall|x: QuerySlot| JsonSpec::Obj(seq![e]) != #[trigger] x.jval() by {
        if JsonSpec::Obj(seq![e]) == x.jval() {
            lemma_query_slot_tag(x, e);
            match x {
                QuerySlot::IncentiveParameters(q) => {
                    assert(e.1 == q.jval());
                },
                _ => {},
            }
        }
    }
}

/// A single-entry wire shape under this key decodes only through its
/// own payload type.
proof fn lemma_query_slot_reject_total_bonded(e: (Seq<char>, JsonSpec))
    requires
        e.0 == "total_bonded"@,
        forall|y: TotalBondedParams| e.1 != #[trigger] y.jval(),
    ensures
        forall|x: QuerySlot| JsonSpec::Obj(seq![e]) != #[trigger] x.jval(),
{
    lemma_query_slot_keys();
    assert forall|x: QuerySlot| JsonSpec::Obj(seq![e]) != #[trigger] x.jval() by {
        if JsonSpec::Obj(seq![e]) == x.jval() {
            lemma_query_slot_tag(x, e);
            match x {
                QuerySlot::TotalBonded(q) => {
                    assert(e.1 == q.jval());
                },
                _ => {},
            }
        }
    }
}

/// A single-entry wire shape under this key decodes only through its
/// own payload type.
proof fn lemma_query_slot_reject_total_unbonding(e: (Seq<char>, JsonSpec))
    requires
        e.0 == "total_unbonding"@,
        forall|y: TotalUnbondingParams| e.1 != #[trigger] y.jval(),
    ensures
        forall|x: QuerySlot| JsonSpec::Obj(seq![e]) != #[trigger] x.jval(),
{
    lemma_query_slot_keys();
    assert forall|x: QuerySlot| JsonSpec::Obj(seq![e]) != #[trigger] x.jval() by {
        if JsonSpec::Obj(seq![e]) == x.jval() {
            lemma_query_slot_tag(x, e);
            match x {
                QuerySlot::TotalUnbonding(q) => {
                    assert(e.1 == q.jval());
                },
                _ => {},
            }
        }
    }
}

/// A single-entry wire shape under this key decodes only through its
/// own payload type.
proof fn lemma_query_slot_reject_account_bonds(e: (Seq<char>, JsonSpec))
    requires
        e.0 == "account_bonds"@,
        forall|y: AccountBondsParams| e.1 != #[trigger] y.jval(),
    ensures
        forall|x: QuerySlot| JsonSpec::Obj(seq![e]) != #[trigger] x.jval(),
{
    lemma_query_slot_keys();
    assert forall|x: QuerySlot| JsonSpec::Obj(seq![e]) != #[trigger] x.jval() by {
        if JsonSpec::Obj(seq![e]) == x.jval() {
            lemma_query_slot_tag(x, e);
            match x {
                QuerySlot::AccountBonds(q) => {
                    assert(e.1 == q.jval());
                },
                _ => {},
            }
        }
    }
}

/// A single-entry wire shape under this key decodes only through its
/// own payload type.
proof fn lemma_query_slot_reject_pending_rewards(e: (Seq<char>, JsonSpec))
    requires
        e.0 == "pending_rewards"@,
        forall|y: PendingRewardsParams| e.1 != #[trigger] y.jval(),
    ensures
        forall|x: QuerySlot| JsonSpec::Obj(seq![e]) != #[trigger] x.jval(),
{
    lemma_query_slot_keys();
    assert forall|x: QuerySlot| JsonSpec::Obj(seq![e]) != #[trigger] x.jval() by {
        if JsonSpec::Obj(seq![e]) == x.jval() {
            lemma_query_slot_tag(x, e);
            match x {
                QuerySlot::PendingRewards(q) => {
                    assert(e.1 == q.jval());
                },
                _ => {},
            }
        }
    }
}

/// A single-entry wire shape under this key decodes only through its
/// own payload type.
proof fn lemma_query_slot_reject_completed_incentive_programs(e: (Seq<char>, JsonSpec))
    requires
        e.0 == "completed_incentive_programs"@,
        forall|y: CompletedIncentiveProgramsParams| e.1 != #[trigger] y.jval(),
    ensures
        forall|x: QuerySlot| JsonSpec::Obj(seq![e]) != #[trigger] x.jval(),
{
    lemma_query_slot_keys();
    assert forall|x: QuerySlot| JsonSpec::Obj(seq![e]) != #[trigger] x.jval() by {
        if JsonSpec::Obj(seq![e]) == x.jval() {
            lemma_query_slot_tag(x, e);
            match x {
                QuerySlot::CompletedIncentivePrograms(q) => {
                    assert(e.1 == q.jval());
                },
                _ => {},
            }
        }
    }
}

/// A single-entry wire shape under this key decodes only through its
/// own payload type.
proof fn lemma_query_slot_reject_ongoing_incentive_programs(e: (Seq<char>, JsonSpec))
    requires
        e.0 == "ongoing_incentive_programs"@,
        forall|y: OngoingIncentiveProgramsParams| e.1 != #[trigger] y.jval(),
    ensures
        forall|x: QuerySlot| JsonSpec::Obj(seq![e]) != #[trigger] x.jval(),
{
    lemma_query_slot_keys();
    assert forall|x: QuerySlot| JsonSpec::Obj(seq![e]) != #[trigger] x.jval() by {
        if JsonSpec::Obj(seq![e]) == x.jval() {
            lemma_query_slot_tag(x, e);
            match x {
                QuerySlot::OngoingIncentivePrograms(q) => {
                    assert(e.1 == q.jval());
                },
                _ => {},
            }
        }
    }
}

/// A single-entry wire shape under this key decodes only through its
/// own payload type.
proof fn lemma_query_slot_reject_upcoming_incentive_programs(e: (Seq<char>, JsonSpec))
    requires
        e.0 == "upcoming_incentive_programs"@,
        forall|y: UpcomingIncentiveProgramsParams| e.1 != #[trigger] y.jval(),
    ensures
        forall|x: QuerySlot| JsonSpec::Obj(seq![e]) != #[trigger] x.jval(),
{
    lemma_query_slot_keys();
    assert forall|x: QuerySlot| JsonSpec::Obj(seq![e]) != #[trigger] x.jval() by {
        if JsonSpec::Obj(seq![e]) == x.jval() {
            lemma_query_slot_tag(x, e);
            match x {
                QuerySlot::UpcomingIncentivePrograms(q) => {
                    assert(e.1 == q.jval());
                },
                _ => {},
            }
        }
    }
}

/// A single-entry wire shape under this key decodes only through its
/// own payload type.
proof fn lemma_query_slot_reject_incentive_program(e: (Seq<char>, JsonSpec))
    requires
        e.0 == "incentive_program"@,
        forall|y: IncentiveProgramParams| e.1 != #[trigger] y.jval(),
    ensures
        forall|x: QuerySlot| JsonSpec::Obj(seq![e]) != #[trigger] x.jval(),
{
    lemma_query_slot_keys();
    assert forall|x: QuerySlot| JsonSpec::Obj(seq![e]) != #[trigger] x.jval() by {
        if JsonSpec::Obj(seq![e]) == x.jval() {
            lemma_query_slot_tag(x, e);
            match x {
                QuerySlot::IncentiveProgram(q) => {
                    assert(e.1 == q.jval());
                },
                _ => {},
            }
        }
    }
}

/// A single-entry wire shape under this key decodes only through its
/// own payload type.
proof fn lemma_query_slot_reject_current_rates(e: (Seq<char>, JsonSpec))
    requires
        e.0 == "current_rates"@,
        forall|y: CurrentRatesParams| e.1 != #[trigger] y.jval(),
    ensures
        forall|x: QuerySlot| JsonSpec::Obj(seq![e]) != #[trigger] x.jval(),
{
    lemma_query_slot_keys();
    assert forall|x: QuerySlot| JsonSpec::Obj(seq![e]) != #[trigger] x.jval() by {
        if JsonSpec::Obj(seq![e]) == x.jval() {
            lemma_query_slot_tag(x, e);
            match x {
                QuerySlot::CurrentRates(q) => {
                    assert(e.1 == q.jval());
                },
                _ => {},
            }
        }
    }
}

/// A single-entry wire shape under this key decodes only through its
/// own payload type.
proof fn lemma_query_slot_reject_actual_rates(e: (Seq<char>, JsonSpec))
    requires
        e.0 == "actual_rates"@,
        forall|y: ActualRatesParams| e.1 != #[trigger] y.jval(),
    ensures
        forall|x: QuerySlot| JsonSpec::Obj(seq![e]) != #[trigger] x.jval(),
{
    lemma_query_slot_keys();
    assert forall|x: QuerySlot| JsonSpec::Obj(seq![e]) != #[trigger] x.jval() by {
        if JsonSpec::Obj(seq![e]) == x.jval() {
            lemma_query_slot_tag(x, e);
            match x {
                QuerySlot::ActualRates(q) => {
                    assert(e.1 == q.jval());
                },
                _ => {},
            }
        }
    }
}

/// A single-entry wire shape under this key decodes only through its
/// own payload type.
proof fn lemma_query_slot_reject_last_reward_time(e: (Seq<char>, JsonSpec))
    requires
        e.0 == "last_reward_time"@,
        forall|y: LastRewardTimeParams| e.1 != #[trigger] y.jval(),
    ensures
        forall|x: QuerySlot| JsonSpec::Obj(seq![e]) != #[trigger] x.jval(),
{
    lemma_query_slot_keys();
    assert forall|x: QuerySlot| JsonSpec::Obj(seq![e]) != #[trigger] x.jval() by {
        if JsonSpec::Obj(seq![e]) == x.jval() {
            lemma_query_slot_tag(x, e);
            match x {
                QuerySlot::LastRewardTime(q) => {
                    assert(e.1 == q.jval());
                },
                _ => {},
            }
        }
    }
}

/// A single-entry wire shape under this key decodes only through its
/// own payload type.
proof fn lemma_query_slot_reject_metoken_parameters(e: (Seq<char>, JsonSpec))
    requires
        e.0 == "metoken_parameters"@,
        forall|y: MetokenParametersParams| e.1 != #[trigger] y.jval(),
    ensures
        forall|x: QuerySlot| JsonSpec::Obj(seq![e]) != #[trigger] x.jval(),
{
    lemma_query_slot_keys();
    assert forall|x: QuerySlot| JsonSpec::Obj(seq![e]) != #[trigger] x.jval() by {
        if JsonSpec::Obj(seq![e]) == x.jval() {
            lemma_query_slot_tag(x, e);
            match x {
                QuerySlot::MetokenParameters(q) => {
                    assert(e.1 == q.jval());
                },
                _ => {},
            }
        }
    }
}

/// A single-entry wire shape under this key decodes only through its
/// own payload type.
proof fn lemma_query_slot_reject_metoken_indexes(e: (Seq<char>, JsonSpec))
    requires
        e.0 == "metoken_indexes"@,
        forall|y: MetokenIndexesParams| e.1 != #[trigger] y.jval(),
    ensures
        forall|x: QuerySlot| JsonSpec::Obj(seq![e]) != #[trigger] x.jval(),
{
    lemma_query_slot_keys();
    assert forall|x: QuerySlot| JsonSpec::Obj(seq![e]) != #[trigger] x.jval() by {
        if JsonSpec::Obj(seq![e]) == x.jval() {
            lemma_query_slot_tag(x, e);
            match x {
                QuerySlot::MetokenIndexes(q) => {
                    assert(e.1 == q.jval());
                },
                _ => {},
            }
        }
    }
}

/// A single-entry wire shape under this key decodes only through its
/// own payload type.
proof fn lemma_query_slot_reject_metoken_swapfee(e: (Seq<char>, JsonSpec))
    requires
        e.0 == "metoken_swapfee"@,
        forall|y: MetokenSwapfeeParams| e.1 != #[trigger] y.jval(),
    ensures
        forall|x: QuerySlot| JsonSpec::Obj(seq![e]) != #[trigger] x.jval(),
{
    lemma_query_slot_keys();
    assert forall|x: QuerySlot| JsonSpec::Obj(seq![e]) != #[trigger] x.jval() by {
        if JsonSpec::Obj(seq![e]) == x.jval() {
            lemma_query_slot_tag(x, e);
            match x {
                QuerySlot::MetokenSwapfee(q) => {
                    assert(e.1 == q.jval());
                },
                _ => {},
            }
        }
    }
}

/// A single-entry wire shape under this key decodes only through its
/// own payload type.
proof fn lemma_query_slot_reject_metoken_redeemfee(e: (Seq<char>, JsonSpec))
    requires
        e.0 == "metoken_redeemfee"@,
        forall|y: MetokenRedeemfeeParams| e.1 != #[trigger] y.jval(),
    ensures
        forall|x: QuerySlot| JsonSpec::Obj(seq![e]) != #[trigger] x.jval(),
{
    lemma_query_slot_keys();
    assert forall|x: QuerySlot| JsonSpec::Obj(seq![e]) != #[trigger] x.jval() by {
        if JsonSpec::Obj(seq![e]) == x.jval() {
            lemma_query_slot_tag(x, e);
            match x {
                QuerySlot::MetokenRedeemfee(q) => {
                    assert(e.1 == q.jval());
                },
                _ => {},
            }
        }
    }
}

/// A single-entry wire shape under this key decodes only through its
/// own payload type.
proof fn lemma_query_slot_reject_metoken_indexbalances(e: (Seq<char>, JsonSpec))
    requires
        e.0 == "metoken_indexbalances"@,
        forall|y: MetokenIndexbalancesParams| e.1 != #[trigger] y.jval(),
    ensures
        forall|x: QuerySlot| JsonSpec::Obj(seq![e]) != #[trigger] x.jval(),
{
    lemma_query_slot_keys();
    assert forall|x: QuerySlot| JsonSpec::Obj(seq![e]) != #[trigger] x.jval() by {
        if JsonSpec::Obj(seq![e]) == x.jval() {
            lemma_query_slot_tag(x, e);
            match x {
                QuerySlot::MetokenIndexbalances(q) => {
                    assert(e.1 == q.jval());
                },
                _ => {},
            }
        }
    }
}

/// A single-entry wire shape under this key decodes only through its
/// own payload type.
proof fn lemma_query_slot_reject_metoken_indexprice(e: (Seq<char>, JsonSpec))
    requires
        e.0 == "metoken_indexprice"@,
        forall|y: MetokenIndexPricesParams| e.1 != #[trigger] y.jval(),
    ensures
        forall|x: QuerySlot| JsonSpec::Obj(seq![e]) != #[trigger] x.jval(),
{
    lemma_query_slot_keys();
    assert forall|x: QuerySlot| JsonSpec::Obj(seq![e]) != #[trigger] x.jval() by {
        if JsonSpec::Obj(seq![e]) == x.jval() {
            lemma_query_slot_tag(x, e);
            match x {
                QuerySlot::MetokenIndexprice(q) => {
                    assert(e.1 == q.jval());
                },
                _ => {},
            }
        }
    }
}

/// A single-entry wire shape under an unknown key decodes to nothing.
proof fn lemma_query_slot_reject_other(e: (Seq<char>, JsonSpec))
    requires
        e.0 != "exchange_rates"@,
        e.0 != "leverage_parameters"@,
        e.0 != "market_summary"@,
        e.0 != "account_balances"@,
        e.0 != "account_summary"@,
        e.0 != "registered_tokens"@,
        e.0 != "liquidation_targets"@,
        e.0 != "active_exchange_rates"@,
        e.0 != "feeder_delegation"@,
        e.0 != "miss_counter"@,
        e.0 != "slash_window"@,
        e.0 != "aggregate_prevote"@,
        e.0 != "aggregate_prevotes"@,
        e.0 != "aggregate_vote"@,
        e.0 != "aggregate_votes"@,
        e.0 != "oracle_params"@,
        e.0 != "bad_debts_params"@,
        e.0 != "max_withdraw_params"@,
        e.0 != "max_borrow_params"@,
        e.0 != "medians_params"@,
        e.0 != "median_deviations_params"@,
        e.0 != "incentive_parameters"@,
        e.0 != "total_bonded"@,
        e.0 != "total_unbonding"@,
        e.0 != "account_bonds"@,
        e.0 != "pending_rewards"@,
        e.0 != "completed_incentive_programs"@,
        e.0 != "ongoing_incentive_programs"@,
        e.0 != "upcoming_incentive_programs"@,
        e.0 != "incentive_program"@,
        e.0 != "current_rates"@,
        e.0 != "actual_rates"@,
        e.0 != "last_reward_time"@,
        e.0 != "metoken_parameters"@,
        e.0 != "metoken_indexes"@,
        e.0 != "metoken_swapfee"@,
        e.0 != "metoken_redeemfee"@,
        e.0 != "metoken_indexbalances"@,
        e.0 != "metoken_indexprice"@,
    ensures
        forall|x: QuerySlot| JsonSpec::Obj(seq![e]) != #[trigger] x.jval(),
{
    assert forall|x: QuerySlot| JsonSpec::Obj(seq![e]) != #[trigger] x.jval() by {
        if JsonSpec::Obj(seq![e]) == x.jval() {
            lemma_query_slot_tag(x, e);
        }
    }
}

impl WireRecord for QuerySlot {
    open spec fn jval(self) -> JsonSpec {
        match self {
            QuerySlot::ExchangeRates(p) => JsonSpec::Obj(seq![("exchange_rates"@, p.jval())]),
            QuerySlot::LeverageParameters(p) => JsonSpec::Obj(seq![("leverage_parameters"@, p.jval())]),
            QuerySlot::MarketSummary(p) => JsonSpec::Obj(seq![("market_summary"@, p.jval())]),
            QuerySlot::AccountBalances(p) => JsonSpec::Obj(seq![("account_balances"@, p.jval())]),
            QuerySlot::AccountSummary(p) => JsonSpec::Obj(seq![("account_summary"@, p.jval())]),
            QuerySlot::RegisteredTokens(p) => JsonSpec::Obj(seq![("registered_tokens"@, p.jval())]),
            QuerySlot::LiquidationTargets(p) => JsonSpec::Obj(seq![("liquidation_targets"@, p.jval())]),
            QuerySlot::ActiveExchangeRates(p) => JsonSpec::Obj(seq![("active_exchange_rates"@, p.jval())]),
            QuerySlot::FeederDelegation(p) => JsonSpec::Obj(seq![("feeder_delegation"@, p.jval())]),
            QuerySlot::MissCounter(p) => JsonSpec::Obj(seq![("miss_counter"@, p.jval())]),
            QuerySlot::SlashWindow(p) => JsonSpec::Obj(seq![("slash_window"@, p.jval())]),
            QuerySlot::AggregatePrevote(p) => JsonSpec::Obj(seq![("aggregate_prevote"@, p.jval())]),
            QuerySlot::AggregatePrevotes(p) => JsonSpec::Obj(seq![("aggregate_prevotes"@, p.jval())]),
            QuerySlot::AggregateVote(p) => JsonSpec::Obj(seq![("aggregate_vote"@, p.jval())]),
            QuerySlot::AggregateVotes(p) => JsonSpec::Obj(seq![("aggregate_votes"@, p.jval())]),
            QuerySlot::OracleParams(p) => JsonSpec::Obj(seq![("oracle_params"@, p.jval())]),
            QuerySlot::BadDebts(p) => JsonSpec::Obj(seq![("bad_debts_params"@, p.jval())]),
            QuerySlot::MaxWithdraw(p) => JsonSpec::Obj(seq![("max_withdraw_params"@, p.jval())]),
            QuerySlot::MaxBorrow(p) => JsonSpec::Obj(seq![("max_borrow_params"@, p.jval())]),
            QuerySlot::Medians(p) => JsonSpec::Obj(seq![("medians_params"@, p.jval())]),
            QuerySlot::MedianDeviations(p) => JsonSpec::Obj(seq![("median_deviations_params"@, p.jval())]),
            QuerySlot::IncentiveParameters(p) => JsonSpec::Obj(seq![("incentive_parameters"@, p.jval())]),
            QuerySlot::TotalBonded(p) => JsonSpec::Obj(seq![("total_bonded"@, p.jval())]),
            QuerySlot::TotalUnbonding(p) => JsonSpec::Obj(seq![("total_unbonding"@, p.jval())]),
            QuerySlot::AccountBonds(p) => JsonSpec::Obj(seq![("account_bonds"@, p.jval())]),
            QuerySlot::PendingRewards(p) => JsonSpec::Obj(seq![("pending_rewards"@, p.jval())]),
            QuerySlot::CompletedIncentivePrograms(p) => JsonSpec::Obj(seq![("completed_incentive_programs"@, p.jval())]),
            QuerySlot::OngoingIncentivePrograms(p) => JsonSpec::Obj(seq![("ongoing_incentive_programs"@, p.jval())]),
            QuerySlot::UpcomingIncentivePrograms(p) => JsonSpec::Obj(seq![("upcoming_incentive_programs"@, p.jval())]),
            QuerySlot::IncentiveProgram(p) => JsonSpec::Obj(seq![("incentive_program"@, p.jval())]),
            QuerySlot::CurrentRates(p) => JsonSpec::Obj(seq![("current_rates"@, p.jval())]),
            QuerySlot::ActualRates(p) => JsonSpec::Obj(seq![("actual_rates"@, p.jval())]),
            QuerySlot::LastRewardTime(p) => JsonSpec::Obj(seq![("last_reward_time"@, p.jval())]),
            QuerySlot::MetokenParameters(p) => JsonSpec::Obj(seq![("metoken_parameters"@, p.jval())]),
            QuerySlot::MetokenIndexes(p) => JsonSpec::Obj(seq![("metoken_indexes"@, p.jval())]),
            QuerySlot::MetokenSwapfee(p) => JsonSpec::Obj(seq![("metoken_swapfee"@, p.jval())]),
            QuerySlot::MetokenRedeemfee(p) => JsonSpec::Obj(seq![("metoken_redeemfee"@, p.jval())]),
            QuerySlot::MetokenIndexbalances(p) => JsonSpec::Obj(seq![("metoken_indexbalances"@, p.jval())]),
            QuerySlot::MetokenIndexprice(p) => JsonSpec::Obj(seq![("metoken_indexprice"@, p.jval())]),
        }
    }

    proof fn jval_wf(self) {
        match self {
            QuerySlot::ExchangeRates(p) => {
                p.jval_wf();
                assert forall|k: int| 0 <= k < self.jval()->Obj_0.len() implies json_wf(
                    #[trigger] self.jval()->Obj_0[k].1,
                ) by {
                    assert(json_wf(self.jval()->Obj_0[0].1));
                }
            },
            QuerySlot::LeverageParameters(p) => {
                p.jval_wf();
                assert forall|k: int| 0 <= k < self.jval()->Obj_0.len() implies json_wf(
                    #[trigger] self.jval()->Obj_0[k].1,
                ) by {
                    assert(json_wf(self.jval()->Obj_0[0].1));
                }
            },
            QuerySlot::MarketSummary(p) => {
                p.jval_wf();
                assert forall|k: int| 0 <= k < self.jval()->Obj_0.len() implies json_wf(
                    #[trigger] self.jval()->Obj_0[k].1,
                ) by {
                    assert(json_wf(self.jval()->Obj_0[0].1));
                }
            },
            QuerySlot::AccountBalances(p) => {
                p.jval_wf();
                assert forall|k: int| 0 <= k < self.jval()->Obj_0.len() implies json_wf(
                    #[trigger] self.jval()->Obj_0[k].1,
                ) by {
                    assert(json_wf(self.jval()->Obj_0[0].1));
                }
            },
            QuerySlot::AccountSummary(p) => {
                p.jval_wf();
                assert forall|k: int| 0 <= k < self.jval()->Obj_0.len() implies json_wf(
                    #[trigger] self.jval()->Obj_0[k].1,
                ) by {
                    assert(json_wf(self.jval()->Obj_0[0].1));
                }
            },
            QuerySlot::RegisteredTokens(p) => {
                p.jval_wf();
                assert forall|k: int| 0 <= k < self.jval()->Obj_0.len() implies json_wf(
                    #[trigger] self.jval()->Obj_0[k].1,
                ) by {
                    assert(json_wf(self.jval()->Obj_0[0].1));
                }
            },
            QuerySlot::LiquidationTargets(p) => {
                p.jval_wf();
                assert forall|k: int| 0 <= k < self.jval()->Obj_0.len() implies json_wf(
                    #[trigger] self.jval()->Obj_0[k].1,
                ) by {
                    assert(json_wf(self.jval()->Obj_0[0].1));
                }
            },
            QuerySlot::ActiveExchangeRates(p) => {
                p.jval_wf();
                assert forall|k: int| 0 <= k < self.jval()->Obj_0.len() implies json_wf(
                    #[trigger] self.jval()->Obj_0[k].1,
                ) by {
                    assert(json_wf(self.jval()->Obj_0[0].1));
                }
            },
            QuerySlot::FeederDelegation(p) => {
                p.jval_wf();
                assert forall|k: int| 0 <= k < self.jval()->Obj_0.len() implies json_wf(
                    #[trigger] self.jval()->Obj_0[k].1,
                ) by {
                    assert(json_wf(self.jval()->Obj_0[0].1));
                }
            },
            QuerySlot::MissCounter(p) => {
                p.jval_wf();
                assert forall|k: int| 0 <= k < self.jval()->Obj_0.len() implies json_wf(
                    #[trigger] self.jval()->Obj_0[k].1,
                ) by {
                    assert(json_wf(self.jval()->Obj_0[0].1));
                }
            },
            QuerySlot::SlashWindow(p) => {
                p.jval_wf();
                assert forall|k: int| 0 <= k < self.jval()->Obj_0.len() implies json_wf(
                    #[trigger] self.jval()->Obj_0[k].1,
                ) by {
                    assert(json_wf(self.jval()->Obj_0[0].1));
                }
            },
            QuerySlot::AggregatePrevote(p) => {
                p.jval_wf();
                assert forall|k: int| 0 <= k < self.jval()->Obj_0.len() implies json_wf(
                    #[trigger] self.jval()->Obj_0[k].1,
                ) by {
                    assert(json_wf(self.jval()->Obj_0[0].1));
                }
            },
            QuerySlot::AggregatePrevotes(p) => {
                p.jval_wf();
                assert forall|k: int| 0 <= k < self.jval()->Obj_0.len() implies json_wf(
                    #[trigger] self.jval()->Obj_0[k].1,
                ) by {
                    assert(json_wf(self.jval()->Obj_0[0].1));
                }
            },
            QuerySlot::AggregateVote(p) => {
                p.jval_wf();
                assert forall|k: int| 0 <= k < self.jval()->Obj_0.len() implies json_wf(
                    #[trigger] self.jval()->Obj_0[k].1,
                ) by {
                    assert(json_wf(self.jval()->Obj_0[0].1));
                }
            },
            QuerySlot::AggregateVotes(p) => {
                p.jval_wf();
                assert forall|k: int| 0 <= k < self.jval()->Obj_0.len() implies json_wf(
                    #[trigger] self.jval()->Obj_0[k].1,
                ) by {
                    assert(json_wf(self.jval()->Obj_0[0].1));
                }
            },
            QuerySlot::OracleParams(p) => {
                p.jval_wf();
                assert forall|k: int| 0 <= k < self.jval()->Obj_0.len() implies json_wf(
                    #[trigger] self.jval()->Obj_0[k].1,
                ) by {
                    assert(json_wf(self.jval()->Obj_0[0].1));
                }
            },
            QuerySlot::BadDebts(p) => {
                p.jval_wf();
                assert forall|k: int| 0 <= k < self.jval()->Obj_0.len() implies json_wf(
                    #[trigger] self.jval()->Obj_0[k].1,
                ) by {
                    assert(json_wf(self.jval()->Obj_0[0].1));
                }
            },
            QuerySlot::MaxWithdraw(p) => {
                p.jval_wf();
                assert forall|k: int| 0 <= k < self.jval()->Obj_0.len() implies json_wf(
                    #[trigger] self.jval()->Obj_0[k].1,
                ) by {
                    assert(json_wf(self.jval()->Obj_0[0].1));
                }
            },
            QuerySlot::MaxBorrow(p) => {
                p.jval_wf();
                assert forall|k: int| 0 <= k < self.jval()->Obj_0.len() implies json_wf(
                    #[trigger] self.jval()->Obj_0[k].1,
                ) by {
                    assert(json_wf(self.jval()->Obj_0[0].1));
                }
            },
            QuerySlot::Medians(p) => {
                p.jval_wf();
                assert forall|k: int| 0 <= k < self.jval()->Obj_0.len() implies json_wf(
                    #[trigger] self.jval()->Obj_0[k].1,
                ) by {
                    assert(json_wf(self.jval()->Obj_0[0].1));
                }
            },
            QuerySlot::MedianDeviations(p) => {
                p.jval_wf();
                assert forall|k: int| 0 <= k < self.jval()->Obj_0.len() implies json_wf(
                    #[trigger] self.jval()->Obj_0[k].1,
                ) by {
                    assert(json_wf(self.jval()->Obj_0[0].1));
                }
            },
            QuerySlot::IncentiveParameters(p) => {
                p.jval_wf();
                assert forall|k: int| 0 <= k < self.jval()->Obj_0.len() implies json_wf(
                    #[trigger] self.jval()->Obj_0[k].1,
                ) by {
                    assert(json_wf(self.jval()->Obj_0[0].1));
                }
            },
            QuerySlot::TotalBonded(p) => {
                p.jval_wf();
                assert forall|k: int| 0 <= k < self.jval()->Obj_0.len() implies json_wf(
                    #[trigger] self.jval()->Obj_0[k].1,
                ) by {
                    assert(json_wf(self.jval()->Obj_0[0].1));
                }
            },
            QuerySlot::TotalUnbonding(p) => {
                p.jval_wf();
                assert forall|k: int| 0 <= k < self.jval()->Obj_0.len() implies json_wf(
                    #[trigger] self.jval()->Obj_0[k].1,
                ) by {
                    assert(json_wf(self.jval()->Obj_0[0].1));
                }
            },
            QuerySlot::AccountBonds(p) => {
                p.jval_wf();
                assert forall|k: int| 0 <= k < self.jval()->Obj_0.len() implies json_wf(
                    #[trigger] self.jval()->Obj_0[k].1,
                ) by {
                    assert(json_wf(self.jval()->Obj_0[0].1));
                }
            },
            QuerySlot::PendingRewards(p) => {
                p.jval_wf();
                assert forall|k: int| 0 <= k < self.jval()->Obj_0.len() implies json_wf(
                    #[trigger] self.jval()->Obj_0[k].1,
                ) by {
                    assert(json_wf(self.jval()->Obj_0[0].1));
                }
            },
            QuerySlot::CompletedIncentivePrograms(p) => {
                p.jval_wf();
                assert forall|k: int| 0 <= k < self.jval()->Obj_0.len() implies json_wf(
                    #[trigger] self.jval()->Obj_0[k].1,
                ) by {
                    assert(json_wf(self.jval()->Obj_0[0].1));
                }
            },
            QuerySlot::OngoingIncentivePrograms(p) => {
                p.jval_wf();
                assert forall|k: int| 0 <= k < self.jval()->Obj_0.len() implies json_wf(
                    #[trigger] self.jval()->Obj_0[k].1,
                ) by {
                    assert(json_wf(self.jval()->Obj_0[0].1));
                }
            },
            QuerySlot::UpcomingIncentivePrograms(p) => {
                p.jval_wf();
                assert forall|k: int| 0 <= k < self.jval()->Obj_0.len() implies json_wf(
                    #[trigger] self.jval()->Obj_0[k].1,
                ) by {
                    assert(json_wf(self.jval()->Obj_0[0].1));
                }
            },
            QuerySlot::IncentiveProgram(p) => {
                p.jval_wf();
                assert forall|k: int| 0 <= k < self.jval()->Obj_0.len() implies json_wf(
                    #[trigger] self.jval()->Obj_0[k].1,
                ) by {
                    assert(json_wf(self.jval()->Obj_0[0].1));
                }
            },
            QuerySlot::CurrentRates(p) => {
                p.jval_wf();
                assert forall|k: int| 0 <= k < self.jval()->Obj_0.len() implies json_wf(
                    #[trigger] self.jval()->Obj_0[k].1,
                ) by {
                    assert(json_wf(self.jval()->Obj_0[0].1));
                }
            },
            QuerySlot::ActualRates(p) => {
                p.jval_wf();
                assert forall|k: int| 0 <= k < self.jval()->Obj_0.len() implies json_wf(
                    #[trigger] self.jval()->Obj_0[k].1,
                ) by {
                    assert(json_wf(self.jval()->Obj_0[0].1));
                }
            },
            QuerySlot::LastRewardTime(p) => {
                p.jval_wf();
                assert forall|k: int| 0 <= k < self.jval()->Obj_0.len() implies json_wf(
                    #[trigger] self.jval()->Obj_0[k].1,
                ) by {
                    assert(json_wf(self.jval()->Obj_0[0].1));
                }
            },
            QuerySlot::MetokenParameters(p) => {
                p.jval_wf();
                assert forall|k: int| 0 <= k < self.jval()->Obj_0.len() implies json_wf(
                    #[trigger] self.jval()->Obj_0[k].1,
                ) by {
                    assert(json_wf(self.jval()->Obj_0[0].1));
                }
            },
            QuerySlot::MetokenIndexes(p) => {
                p.jval_wf();
                assert forall|k: int| 0 <= k < self.jval()->Obj_0.len() implies json_wf(
                    #[trigger] self.jval()->Obj_0[k].1,
                ) by {
                    assert(json_wf(self.jval()->Obj_0[0].1));
                }
            },
            QuerySlot::MetokenSwapfee(p) => {
                p.jval_wf();
                assert forall|k: int| 0 <= k < self.jval()->Obj_0.len() implies json_wf(
                    #[trigger] self.jval()->Obj_0[k].1,
                ) by {
                    assert(json_wf(self.jval()->Obj_0[0].1));
                }
            },
            QuerySlot::MetokenRedeemfee(p) => {
                p.jval_wf();
                assert forall|k: int| 0 <= k < self.jval()->Obj_0.len() implies json_wf(
                    #[trigger] self.jval()->Obj_0[k].1,
                ) by {
                    assert(json_wf(self.jval()->Obj_0[0].1));
                }
            },
            QuerySlot::MetokenIndexbalances(p) => {
                p.jval_wf();
                assert forall|k: int| 0 <= k < self.jval()->Obj_0.len() implies json_wf(
                    #[trigger] self.jval()->Obj_0[k].1,
                ) by {
                    assert(json_wf(self.jval()->Obj_0[0].1));
                }
            },
            QuerySlot::MetokenIndexprice(p) => {
                p.jval_wf();
                assert forall|k: int| 0 <= k < self.jval()->Obj_0.len() implies json_wf(
                    #[trigger] self.jval()->Obj_0[k].1,
                ) by {
                    assert(json_wf(self.jval()->Obj_0[0].1));
                }
            },
        }
    }

    fn build_jval(&self) -> (r: JsonVal) {
        match self {
            QuerySlot::ExchangeRates(p) => {
                let mut entries: Vec<JsonEntry> = Vec::new();
                entries.push(JsonEntry { key: String::from_str("exchange_rates"), val: p.build_jval() });
                let ghost ges = entries@;
                let r = JsonVal::Obj(entries);
                proof {
                    assert(r.dv()->Obj_0[0] == (ges[0].key@, ges[0].val.dv()));
                    assert(r.dv()->Obj_0 =~~= self.jval()->Obj_0);
                    assert(r.dv() =~~= self.jval());
                    assert(ges[0].val.wf());
                }
                r
            },
            QuerySlot::LeverageParameters(p) => {
                let mut entries: Vec<JsonEntry> = Vec::new();
                entries.push(JsonEntry { key: String::from_str("leverage_parameters"), val: p.build_jval() });
                let ghost ges = entries@;
                let r = JsonVal::Obj(entries);
                proof {
                    assert(r.dv()->Obj_0[0] == (ges[0].key@, ges[0].val.dv()));
                    assert(r.dv()->Obj_0 =~~= self.jval()->Obj_0);
                    assert(r.dv() =~~= self.jval());
                    assert(ges[0].val.wf());
                }
                r
            },
            QuerySlot::MarketSummary(p) => {
                let mut entries: Vec<JsonEntry> = Vec::new();
                entries.push(JsonEntry { key: String::from_str("market_summary"), val: p.build_jval() });
                let ghost ges = entries@;
                let r = JsonVal::Obj(entries);
                proof {
                    assert(r.dv()->Obj_0[0] == (ges[0].key@, ges[0].val.dv()));
                    assert(r.dv()->Obj_0 =~~= self.jval()->Obj_0);
                    assert(r.dv() =~~= self.jval());
                    assert(ges[0].val.wf());
                }
                r
            },
            QuerySlot::AccountBalances(p) => {
                let mut entries: Vec<JsonEntry> = Vec::new();
                entries.push(JsonEntry { key: String::from_str("account_balances"), val: p.build_jval() });
                let ghost ges = entries@;
                let r = JsonVal::Obj(entries);
                proof {
                    assert(r.dv()->Obj_0[0] == (ges[0].key@, ges[0].val.dv()));
                    assert(r.dv()->Obj_0 =~~= self.jval()->Obj_0);
                    assert(r.dv() =~~= self.jval());
                    assert(ges[0].val.wf());
                }
                r
            },
            QuerySlot::AccountSummary(p) => {
                let mut entries: Vec<JsonEntry> = Vec::new();
                entries.push(JsonEntry { key: String::from_str("account_summary"), val: p.build_jval() });
                let ghost ges = entries@;
                let r = JsonVal::Obj(entries);
                proof {
                    assert(r.dv()->Obj_0[0] == (ges[0].key@, ges[0].val.dv()));
                    assert(r.dv()->Obj_0 =~~= self.jval()->Obj_0);
                    assert(r.dv() =~~= self.jval());
                    assert(ges[0].val.wf());
                }
                r
            },
            QuerySlot::RegisteredTokens(p) => {
                let mut entries: Vec<JsonEntry> = Vec::new();
                entries.push(JsonEntry { key: String::from_str("registered_tokens"), val: p.build_jval() });
                let ghost ges = entries@;
                let r = JsonVal::Obj(entries);
                proof {
                    assert(r.dv()->Obj_0[0] == (ges[0].key@, ges[0].val.dv()));
                    assert(r.dv()->Obj_0 =~~= self.jval()->Obj_0);
                    assert(r.dv() =~~= self.jval());
                    assert(ges[0].val.wf());
                }
                r
            },
            QuerySlot::LiquidationTargets(p) => {
                let mut entries: Vec<JsonEntry> = Vec::new();
                entries.push(JsonEntry { key: String::from_str("liquidation_targets"), val: p.build_jval() });
                let ghost ges = entries@;
                let r = JsonVal::Obj(entries);
                proof {
                    assert(r.dv()->Obj_0[0] == (ges[0].key@, ges[0].val.dv()));
                    assert(r.dv()->Obj_0 =~~= self.jval()->Obj_0);
                    assert(r.dv() =~~= self.jval());
                    assert(ges[0].val.wf());
                }
                r
            },
            QuerySlot::ActiveExchangeRates(p) => {
                let mut entries: Vec<JsonEntry> = Vec::new();
                entries.push(JsonEntry { key: String::from_str("active_exchange_rates"), val: p.build_jval() });
                let ghost ges = entries@;
                let r = JsonVal::Obj(entries);
                proof {
                    assert(r.dv()->Obj_0[0] == (ges[0].key@, ges[0].val.dv()));
                    assert(r.dv()->Obj_0 =~~= self.jval()->Obj_0);
                    assert(r.dv() =~~= self.jval());
                    assert(ges[0].val.wf());
                }
                r
            },
            QuerySlot::FeederDelegation(p) => {
                let mut entries: Vec<JsonEntry> = Vec::new();
                entries.push(JsonEntry { key: String::from_str("feeder_delegation"), val: p.build_jval() });
                let ghost ges = entries@;
                let r = JsonVal::Obj(entries);
                proof {
                    assert(r.dv()->Obj_0[0] == (ges[0].key@, ges[0].val.dv()));
                    assert(r.dv()->Obj_0 =~~= self.jval()->Obj_0);
                    assert(r.dv() =~~= self.jval());
                    assert(ges[0].val.wf());
                }
                r
            },
            QuerySlot::MissCounter(p) => {
                let mut entries: Vec<JsonEntry> = Vec::new();
                entries.push(JsonEntry { key: String::from_str("miss_counter"), val: p.build_jval() });
                let ghost ges = entries@;
                let r = JsonVal::Obj(entries);
                proof {
                    assert(r.dv()->Obj_0[0] == (ges[0].key@, ges[0].val.dv()));
                    assert(r.dv()->Obj_0 =~~= self.jval()->Obj_0);
                    assert(r.dv() =~~= self.jval());
                    assert(ges[0].val.wf());
                }
                r
            },
            QuerySlot::SlashWindow(p) => {
                let mut entries: Vec<JsonEntry> = Vec::new();
                entries.push(JsonEntry { key: String::from_str("slash_window"), val: p.build_jval() });
                let ghost ges = entries@;
                let r = JsonVal::Obj(entries);
                proof {
                    assert(r.dv()->Obj_0[0] == (ges[0].key@, ges[0].val.dv()));
                    assert(r.dv()->Obj_0 =~~= self.jval()->Obj_0);
                    assert(r.dv() =~~= self.jval());
                    assert(ges[0].val.wf());
                }
                r
            },
            QuerySlot::AggregatePrevote(p) => {
                let mut entries: Vec<JsonEntry> = Vec::new();
                entries.push(JsonEntry { key: String::from_str("aggregate_prevote"), val: p.build_jval() });
                let ghost ges = entries@;
                let r = JsonVal::Obj(entries);
                proof {
                    assert(r.dv()->Obj_0[0] == (ges[0].key@, ges[0].val.dv()));
                    assert(r.dv()->Obj_0 =~~= self.jval()->Obj_0);
                    assert(r.dv() =~~= self.jval());
                    assert(ges[0].val.wf());
                }
                r
            },
            QuerySlot::AggregatePrevotes(p) => {
                let mut entries: Vec<JsonEntry> = Vec::new();
                entries.push(JsonEntry { key: String::from_str("aggregate_prevotes"), val: p.build_jval() });
                let ghost ges = entries@;
                let r = JsonVal::Obj(entries);
                proof {
                    assert(r.dv()->Obj_0[0] == (ges[0].key@, ges[0].val.dv()));
                    assert(r.dv()->Obj_0 =~~= self.jval()->Obj_0);
                    assert(r.dv() =~~= self.jval());
                    assert(ges[0].val.wf());
                }
                r
            },
            QuerySlot::AggregateVote(p) => {
                let mut entries: Vec<JsonEntry> = Vec::new();
                entries.push(JsonEntry { key: String::from_str("aggregate_vote"), val: p.build_jval() });
                let ghost ges = entries@;
                let r = JsonVal::Obj(entries);
                proof {
                    assert(r.dv()->Obj_0[0] == (ges[0].key@, ges[0].val.dv()));
                    assert(r.dv()->Obj_0 =~~= self.jval()->Obj_0);
                    assert(r.dv() =~~= self.jval());
                    assert(ges[0].val.wf());
                }
                r
            },
            QuerySlot::AggregateVotes(p) => {
                let mut entries: Vec<JsonEntry> = Vec::new();
                entries.push(JsonEntry { key: String::from_str("aggregate_votes"), val: p.build_jval() });
                let ghost ges = entries@;
                let r = JsonVal::Obj(entries);
                proof {
                    assert(r.dv()->Obj_0[0] == (ges[0].key@, ges[0].val.dv()));
                    assert(r.dv()->Obj_0 =~~= self.jval()->Obj_0);
                    assert(r.dv() =~~= self.jval());
                    assert(ges[0].val.wf());
                }
                r
            },
            QuerySlot::OracleParams(p) => {
                let mut entries: Vec<JsonEntry> = Vec::new();
                entries.push(JsonEntry { key: String::from_str("oracle_params"), val: p.build_jval() });
                let ghost ges = entries@;
                let r = JsonVal::Obj(entries);
                proof {
                    assert(r.dv()->Obj_0[0] == (ges[0].key@, ges[0].val.dv()));
                    assert(r.dv()->Obj_0 =~~= self.jval()->Obj_0);
                    assert(r.dv() =~~= self.jval());
                    assert(ges[0].val.wf());
                }
                r
            },
            QuerySlot::BadDebts(p) => {
                let mut entries: Vec<JsonEntry> = Vec::new();
                entries.push(JsonEntry { key: String::from_str("bad_debts_params"), val: p.build_jval() });
                let ghost ges = entries@;
                let r = JsonVal::Obj(entries);
                proof {
                    assert(r.dv()->Obj_0[0] == (ges[0].key@, ges[0].val.dv()));
                    assert(r.dv()->Obj_0 =~~= self.jval()->Obj_0);
                    assert(r.dv() =~~= self.jval());
                    assert(ges[0].val.wf());
                }
                r
            },
            QuerySlot::MaxWithdraw(p) => {
                let mut entries: Vec<JsonEntry> = Vec::new();
                entries.push(JsonEntry { key: String::from_str("max_withdraw_params"), val: p.build_jval() });
                let ghost ges = entries@;
                let r = JsonVal::Obj(entries);
                proof {
                    assert(r.dv()->Obj_0[0] == (ges[0].key@, ges[0].val.dv()));
                    assert(r.dv()->Obj_0 =~~= self.jval()->Obj_0);
                    assert(r.dv() =~~= self.jval());
                    assert(ges[0].val.wf());
                }
                r
            },
            QuerySlot::MaxBorrow(p) => {
                let mut entries: Vec<JsonEntry> = Vec::new();
                entries.push(JsonEntry { key: String::from_str("max_borrow_params"), val: p.build_jval() });
                let ghost ges = entries@;
                let r = JsonVal::Obj(entries);
                proof {
                    assert(r.dv()->Obj_0[0] == (ges[0].key@, ges[0].val.dv()));
                    assert(r.dv()->Obj_0 =~~= self.jval()->Obj_0);
                    assert(r.dv() =~~= self.jval());
                    assert(ges[0].val.wf());
                }
                r
            },
            QuerySlot::Medians(p) => {
                let mut entries: Vec<JsonEntry> = Vec::new();
                entries.push(JsonEntry { key: String::from_str("medians_params"), val: p.build_jval() });
                let ghost ges = entries@;
                let r = JsonVal::Obj(entries);
                proof {
                    assert(r.dv()->Obj_0[0] == (ges[0].key@, ges[0].val.dv()));
                    assert(r.dv()->Obj_0 =~~= self.jval()->Obj_0);
                    assert(r.dv() =~~= self.jval());
                    assert(ges[0].val.wf());
                }
                r
            },
            QuerySlot::MedianDeviations(p) => {
                let mut entries: Vec<JsonEntry> = Vec::new();
                entries.push(JsonEntry { key: String::from_str("median_deviations_params"), val: p.build_jval() });
                let ghost ges = entries@;
                let r = JsonVal::Obj(entries);
                proof {
                    assert(r.dv()->Obj_0[0] == (ges[0].key@, ges[0].val.dv()));
                    assert(r.dv()->Obj_0 =~~= self.jval()->Obj_0);
                    assert(r.dv() =~~= self.jval());
                    assert(ges[0].val.wf());
                }
                r
            },
            QuerySlot::IncentiveParameters(p) => {
                let mut entries: Vec<JsonEntry> = Vec::new();
                entries.push(JsonEntry { key: String::from_str("incentive_parameters"), val: p.build_jval() });
                let ghost ges = entries@;
                let r = JsonVal::Obj(entries);
                proof {
                    assert(r.dv()->Obj_0[0] == (ges[0].key@, ges[0].val.dv()));
                    assert(r.dv()->Obj_0 =~~= self.jval()->Obj_0);
                    assert(r.dv() =~~= self.jval());
                    assert(ges[0].val.wf());
                }
                r
            },
            QuerySlot::TotalBonded(p) => {
                let mut entries: Vec<JsonEntry> = Vec::new();
                entries.push(JsonEntry { key: String::from_str("total_bonded"), val: p.build_jval() });
                let ghost ges = entries@;
                let r = JsonVal::Obj(entries);
                proof {
                    assert(r.dv()->Obj_0[0] == (ges[0].key@, ges[0].val.dv()));
                    assert(r.dv()->Obj_0 =~~= self.jval()->Obj_0);
                    assert(r.dv() =~~= self.jval());
                    assert(ges[0].val.wf());
                }
                r
            },
            QuerySlot::TotalUnbonding(p) => {
                let mut entries: Vec<JsonEntry> = Vec::new();
                entries.push(JsonEntry { key: String::from_str("total_unbonding"), val: p.build_jval() });
                let ghost ges = entries@;
                let r = JsonVal::Obj(entries);
                proof {
                    assert(r.dv()->Obj_0[0] == (ges[0].key@, ges[0].val.dv()));
                    assert(r.dv()->Obj_0 =~~= self.jval()->Obj_0);
                    assert(r.dv() =~~= self.jval());
                    assert(ges[0].val.wf());
                }
                r
            },
            QuerySlot::AccountBonds(p) => {
                let mut entries: Vec<JsonEntry> = Vec::new();
                entries.push(JsonEntry { key: String::from_str("account_bonds"), val: p.build_jval() });
                let ghost ges = entries@;
                let r = JsonVal::Obj(entries);
                proof {
                    assert(r.dv()->Obj_0[0] == (ges[0].key@, ges[0].val.dv()));
                    assert(r.dv()->Obj_0 =~~= self.jval()->Obj_0);
                    assert(r.dv() =~~= self.jval());
                    assert(ges[0].val.wf());
                }
                r
            },
            QuerySlot::PendingRewards(p) => {
                let mut entries: Vec<JsonEntry> = Vec::new();
                entries.push(JsonEntry { key: String::from_str("pending_rewards"), val: p.build_jval() });
                let ghost ges = entries@;
                let r = JsonVal::Obj(entries);
                proof {
                    assert(r.dv()->Obj_0[0] == (ges[0].key@, ges[0].val.dv()));
                    assert(r.dv()->Obj_0 =~~= self.jval()->Obj_0);
                    assert(r.dv() =~~= self.jval());
                    assert(ges[0].val.wf());
                }
                r
            },
            QuerySlot::CompletedIncentivePrograms(p) => {
                let mut entries: Vec<JsonEntry> = Vec::new();
                entries.push(JsonEntry { key: String::from_str("completed_incentive_programs"), val: p.build_jval() });
                let ghost ges = entries@;
                let r = JsonVal::Obj(entries);
                proof {
                    assert(r.dv()->Obj_0[0] == (ges[0].key@, ges[0].val.dv()));
                    assert(r.dv()->Obj_0 =~~= self.jval()->Obj_0);
                    assert(r.dv() =~~= self.jval());
                    assert(ges[0].val.wf());
                }
                r
            },
            QuerySlot::OngoingIncentivePrograms(p) => {
                let mut entries: Vec<JsonEntry> = Vec::new();
                entries.push(JsonEntry { key: String::from_str("ongoing_incentive_programs"), val: p.build_jval() });
                let ghost ges = entries@;
                let r = JsonVal::Obj(entries);
                proof {
                    assert(r.dv()->Obj_0[0] == (ges[0].key@, ges[0].val.dv()));
                    assert(r.dv()->Obj_0 =~~= self.jval()->Obj_0);
                    assert(r.dv() =~~= self.jval());
                    assert(ges[0].val.wf());
                }
                r
            },
            QuerySlot::UpcomingIncentivePrograms(p) => {
                let mut entries: Vec<JsonEntry> = Vec::new();
                entries.push(JsonEntry { key: String::from_str("upcoming_incentive_programs"), val: p.build_jval() });
                let ghost ges = entries@;
                let r = JsonVal::Obj(entries);
                proof {
                    assert(r.dv()->Obj_0[0] == (ges[0].key@, ges[0].val.dv()));
                    assert(r.dv()->Obj_0 =~~= self.jval()->Obj_0);
                    assert(r.dv() =~~= self.jval());
                    assert(ges[0].val.wf());
                }
                r
            },
            QuerySlot::IncentiveProgram(p) => {
                let mut entries: Vec<JsonEntry> = Vec::new();
                entries.push(JsonEntry { key: String::from_str("incentive_program"), val: p.build_jval() });
                let ghost ges = entries@;
                let r = JsonVal::Obj(entries);
                proof {
                    assert(r.dv()->Obj_0[0] == (ges[0].key@, ges[0].val.dv()));
                    assert(r.dv()->Obj_0 =~~= self.jval()->Obj_0);
                    assert(r.dv() =~~= self.jval());
                    assert(ges[0].val.wf());
                }
                r
            },
            QuerySlot::CurrentRates(p) => {
                let mut entries: Vec<JsonEntry> = Vec::new();
                entries.push(JsonEntry { key: String::from_str("current_rates"), val: p.build_jval() });
                let ghost ges = entries@;
                let r = JsonVal::Obj(entries);
                proof {
                    assert(r.dv()->Obj_0[0] == (ges[0].key@, ges[0].val.dv()));
                    assert(r.dv()->Obj_0 =~~= self.jval()->Obj_0);
                    assert(r.dv() =~~= self.jval());
                    assert(ges[0].val.wf());
                }
                r
            },
            QuerySlot::ActualRates(p) => {
                let mut entries: Vec<JsonEntry> = Vec::new();
                entries.push(JsonEntry { key: String::from_str("actual_rates"), val: p.build_jval() });
                let ghost ges = entries@;
                let r = JsonVal::Obj(entries);
                proof {
                    assert(r.dv()->Obj_0[0] == (ges[0].key@, ges[0].val.dv()));
                    assert(r.dv()->Obj_0 =~~= self.jval()->Obj_0);
                    assert(r.dv() =~~= self.jval());
                    assert(ges[0].val.wf());
                }
                r
            },
            QuerySlot::LastRewardTime(p) => {
                let mut entries: Vec<JsonEntry> = Vec::new();
                entries.push(JsonEntry { key: String::from_str("last_reward_time"), val: p.build_jval() });
                let ghost ges = entries@;
                let r = JsonVal::Obj(entries);
                proof {
                    assert(r.dv()->Obj_0[0] == (ges[0].key@, ges[0].val.dv()));
                    assert(r.dv()->Obj_0 =~~= self.jval()->Obj_0);
                    assert(r.dv() =~~= self.jval());
                    assert(ges[0].val.wf());
                }
                r
            },
            QuerySlot::MetokenParameters(p) => {
                let mut entries: Vec<JsonEntry> = Vec::new();
                entries.push(JsonEntry { key: String::from_str("metoken_parameters"), val: p.build_jval() });
                let ghost ges = entries@;
                let r = JsonVal::Obj(entries);
                proof {
                    assert(r.dv()->Obj_0[0] == (ges[0].key@, ges[0].val.dv()));
                    assert(r.dv()->Obj_0 =~~= self.jval()->Obj_0);
                    assert(r.dv() =~~= self.jval());
                    assert(ges[0].val.wf());
                }
                r
            },
            QuerySlot::MetokenIndexes(p) => {
                let mut entries: Vec<JsonEntry> = Vec::new();
                entries.push(JsonEntry { key: String::from_str("metoken_indexes"), val: p.build_jval() });
                let ghost ges = entries@;
                let r = JsonVal::Obj(entries);
                proof {
                    assert(r.dv()->Obj_0[0] == (ges[0].key@, ges[0].val.dv()));
                    assert(r.dv()->Obj_0 =~~= self.jval()->Obj_0);
                    assert(r.dv() =~~= self.jval());
                    assert(ges[0].val.wf());
                }
                r
            },
            QuerySlot::MetokenSwapfee(p) => {
                let mut entries: Vec<JsonEntry> = Vec::new();
                entries.push(JsonEntry { key: String::from_str("metoken_swapfee"), val: p.build_jval() });
                let ghost ges = entries@;
                let r = JsonVal::Obj(entries);
                proof {
                    assert(r.dv()->Obj_0[0] == (ges[0].key@, ges[0].val.dv()));
                    assert(r.dv()->Obj_0 =~~= self.jval()->Obj_0);
                    assert(r.dv() =~~= self.jval());
                    assert(ges[0].val.wf());
                }
                r
            },
            QuerySlot::MetokenRedeemfee(p) => {
                let mut entries: Vec<JsonEntry> = Vec::new();
                entries.push(JsonEntry { key: String::from_str("metoken_redeemfee"), val: p.build_jval() });
                let ghost ges = entries@;
                let r = JsonVal::Obj(entries);
                proof {
                    assert(r.dv()->Obj_0[0] == (ges[0].key@, ges[0].val.dv()));
                    assert(r.dv()->Obj_0 =~~= self.jval()->Obj_0);
                    assert(r.dv() =~~= self.jval());
                    assert(ges[0].val.wf());
                }
                r
            },
            QuerySlot::MetokenIndexbalances(p) => {
                let mut entries: Vec<JsonEntry> = Vec::new();
                entries.push(JsonEntry { key: String::from_str("metoken_indexbalances"), val: p.build_jval() });
                let ghost ges = entries@;
                let r = JsonVal::Obj(entries);
                proof {
                    assert(r.dv()->Obj_0[0] == (ges[0].key@, ges[0].val.dv()));
                    assert(r.dv()->Obj_0 =~~= self.jval()->Obj_0);
                    assert(r.dv() =~~= self.jval());
                    assert(ges[0].val.wf());
                }
                r
            },
            QuerySlot::MetokenIndexprice(p) => {
                let mut entries: Vec<JsonEntry> = Vec::new();
                entries.push(JsonEntry { key: String::from_str("metoken_indexprice"), val: p.build_jval() });
                let ghost ges = entries@;
                let r = JsonVal::Obj(entries);
                proof {
                    assert(r.dv()->Obj_0[0] == (ges[0].key@, ges[0].val.dv()));
                    assert(r.dv()->Obj_0 =~~= self.jval()->Obj_0);
                    assert(r.dv() =~~= self.jval());
                    assert(ges[0].val.wf());
                }
                r
            },
        }
    }

    #[verifier::rlimit(80)]
    fn from_jval(v: &JsonVal) -> (r: Option<QuerySlot>) {
        match v {
            JsonVal::Obj(entries) => {
                if entries.len() == 1 {
                    proof {
                        assert(v.dv()->Obj_0[0] == (entries@[0].key@, entries@[0].val.dv()));
                        assert(v.dv()->Obj_0 =~~= seq![(entries@[0].key@, entries@[0].val.dv())]);
                        assert(v.dv() =~~= JsonSpec::Obj(seq![(entries@[0].key@, entries@[0].val.dv())]));
                    }
                    let key = entries[0].key.as_str();
                    if str_eq(key, "exchange_rates") {
                        match WireRecord::from_jval(&entries[0].val) {
                            Some(p) => {
                                let x = QuerySlot::ExchangeRates(p);
                                proof {
                                    assert(x.jval()->Obj_0 =~~= v.dv()->Obj_0);
                                    assert(x.jval() =~~= v.dv());
                                }
                                Some(x)
                            },
                            None => {
                                proof {
                                    lemma_query_slot_reject_exchange_rates((entries@[0].key@, entries@[0].val.dv()));
                                }
                                None
                            },
                        }
                    } else if str_eq(key, "leverage_parameters") {
                        match WireRecord::from_jval(&entries[0].val) {
                            Some(p) => {
                                let x = QuerySlot::LeverageParameters(p);
                                proof {
                                    assert(x.jval()->Obj_0 =~~= v.dv()->Obj_0);
                                    assert(x.jval() =~~= v.dv());
                                }
                                Some(x)
                            },
                            None => {
                                proof {
                                    lemma_query_slot_reject_leverage_parameters((entries@[0].key@, entries@[0].val.dv()));
                                }
                                None
                            },
                        }
                    } else if str_eq(key, "market_summary") {
                        match WireRecord::from_jval(&entries[0].val) {
                            Some(p) => {
                                let x = QuerySlot::MarketSummary(p);
                                proof {
                                    assert(x.jval()->Obj_0 =~~= v.dv()->Obj_0);
                                    assert(x.jval() =~~= v.dv());
                                }
                                Some(x)
                            },
                            None => {
                                proof {
                                    lemma_query_slot_reject_market_summary((entries@[0].key@, entries@[0].val.dv()));
                                }
                                None
                            },
                        }
                    } else if str_eq(key, "account_balances") {
                        match WireRecord::from_jval(&entries[0].val) {
                            Some(p) => {
                                let x = QuerySlot::AccountBalances(p);
                                proof {
                                    assert(x.jval()->Obj_0 =~~= v.dv()->Obj_0);
                                    assert(x.jval() =~~= v.dv());
                                }
                                Some(x)
                            },
                            None => {
                                proof {
                                    lemma_query_slot_reject_account_balances((entries@[0].key@, entries@[0].val.dv()));
                                }
                                None
                            },
                        }
                    } else if str_eq(key, "account_summary") {
                        match WireRecord::from_jval(&entries[0].val) {
                            Some(p) => {
                                let x = QuerySlot::AccountSummary(p);
                                proof {
                                    assert(x.jval()->Obj_0 =~~= v.dv()->Obj_0);
                                    assert(x.jval() =~~= v.dv());
                                }
                                Some(x)
                            },
                            None => {
                                proof {
                                    lemma_query_slot_reject_account_summary((entries@[0].key@, entries@[0].val.dv()));
                                }
                                None
                            },
                        }
                    } else if str_eq(key, "registered_tokens") {
                        match WireRecord::from_jval(&entries[0].val) {
                            Some(p) => {
                                let x = QuerySlot::RegisteredTokens(p);
                                proof {
                                    assert(x.jval()->Obj_0 =~~= v.dv()->Obj_0);
                                    assert(x.jval() =~~= v.dv());
                                }
                                Some(x)
                            },
                            None => {
                                proof {
                                    lemma_query_slot_reject_registered_tokens((entries@[0].key@, entries@[0].val.dv()));
                                }
                                None
                            },
                        }
                    } else if str_eq(key, "liquidation_targets") {
                        match WireRecord::from_jval(&entries[0].val) {
                            Some(p) => {
                                let x = QuerySlot::LiquidationTargets(p);
                                proof {
                                    assert(x.jval()->Obj_0 =~~= v.dv()->Obj_0);
                                    assert(x.jval() =~~= v.dv());
                                }
                                Some(x)
                            },
                            None => {
                                proof {
                                    lemma_query_slot_reject_liquidation_targets((entries@[0].key@, entries@[0].val.dv()));
                                }
                                None
                            },
                        }
                    } else if str_eq(key, "active_exchange_rates") {
                        match WireRecord::from_jval(&entries[0].val) {
                            Some(p) => {
                                let x = QuerySlot::ActiveExchangeRates(p);
                                proof {
                                    assert(x.jval()->Obj_0 =~~= v.dv()->Obj_0);
                                    assert(x.jval() =~~= v.dv());
                                }
                                Some(x)
                            },
                            None => {
                                proof {
                                    lemma_query_slot_reject_active_exchange_rates((entries@[0].key@, entries@[0].val.dv()));
                                }
                                None
                            },
                        }
                    } else if str_eq(key, "feeder_delegation") {
                        match WireRecord::from_jval(&entries[0].val) {
                            Some(p) => {
                                let x = QuerySlot::FeederDelegation(p);
                                proof {
                                    assert(x.jval()->Obj_0 =~~= v.dv()->Obj_0);
                                    assert(x.jval() =~~= v.dv());
                                }
                                Some(x)
                            },
                            None => {
                                proof {
                                    lemma_query_slot_reject_feeder_delegation((entries@[0].key@, entries@[0].val.dv()));
                                }
                                None
                            },
                        }
                    } else if str_eq(key, "miss_counter") {
                        match WireRecord::from_jval(&entries[0].val) {
                            Some(p) => {
                                let x = QuerySlot::MissCounter(p);
                                proof {
                                    assert(x.jval()->Obj_0 =~~= v.dv()->Obj_0);
                                    assert(x.jval() =~~= v.dv());
                                }
                                Some(x)
                            },
                            None => {
                                proof {
                                    lemma_query_slot_reject_miss_counter((entries@[0].key@, entries@[0].val.dv()));
                                }
                                None
                            },
                        }
                    } else if str_eq(key, "slash_window") {
                        match WireRecord::from_jval(&entries[0].val) {
                            Some(p) => {
                                let x = QuerySlot::SlashWindow(p);
                                proof {
                                    assert(x.jval()->Obj_0 =~~= v.dv()->Obj_0);
                                    assert(x.jval() =~~= v.dv());
                                }
                                Some(x)
                            },
                            None => {
                                proof {
                                    lemma_query_slot_reject_slash_window((entries@[0].key@, entries@[0].val.dv()));
                                }
                                None
                            },
                        }
                    } else if str_eq(key, "aggregate_prevote") {
                        match WireRecord::from_jval(&entries[0].val) {
                            Some(p) => {
                                let x = QuerySlot::AggregatePrevote(p);
                                proof {
                                    assert(x.jval()->Obj_0 =~~= v.dv()->Obj_0);
                                    assert(x.jval() =~~= v.dv());
                                }
                                Some(x)
                            },
                            None => {
                                proof {
                                    lemma_query_slot_reject_aggregate_prevote((entries@[0].key@, entries@[0].val.dv()));
                                }
                                None
                            },
                        }
                    } else if str_eq(key, "aggregate_prevotes") {
                        match WireRecord::from_jval(&entries[0].val) {
                            Some(p) => {
                                let x = QuerySlot::AggregatePrevotes(p);
                                proof {
                                    assert(x.jval()->Obj_0 =~~= v.dv()->Obj_0);
                                    assert(x.jval() =~~= v.dv());
                                }
                                Some(x)
                            },
                            None => {
                                proof {
                                    lemma_query_slot_reject_aggregate_prevotes((entries@[0].key@, entries@[0].val.dv()));
                                }
                                None
                            },
                        }
                    } else if str_eq(key, "aggregate_vote") {
                        match WireRecord::from_jval(&entries[0].val) {
                            Some(p) => {
                                let x = QuerySlot::AggregateVote(p);
                                proof {
                                    assert(x.jval()->Obj_0 =~~= v.dv()->Obj_0);
                                    assert(x.jval() =~~= v.dv());
                                }
                                Some(x)
                            },
                            None => {
                                proof {
                                    lemma_query_slot_reject_aggregate_vote((entries@[0].key@, entries@[0].val.dv()));
                                }
                                None
                            },
                        }
                    } else if str_eq(key, "aggregate_votes") {
                        match WireRecord::from_jval(&entries[0].val) {
                            Some(p) => {
                                let x = QuerySlot::AggregateVotes(p);
                                proof {
                                    assert(x.jval()->Obj_0 =~~= v.dv()->Obj_0);
                                    assert(x.jval() =~~= v.dv());
                                }
                                Some(x)
                            },
                            None => {
                                proof {
                                    lemma_query_slot_reject_aggregate_votes((entries@[0].key@, entries@[0].val.dv()));
                                }
                                None
                            },
                        }
                    } else if str_eq(key, "oracle_params") {
                        match WireRecord::from_jval(&entries[0].val) {
                            Some(p) => {
                                let x = QuerySlot::OracleParams(p);
                                proof {
                                    assert(x.jval()->Obj_0 =~~= v.dv()->Obj_0);
                                    assert(x.jval() =~~= v.dv());
                                }
                                Some(x)
                            },
                            None => {
                                proof {
                                    lemma_query_slot_reject_oracle_params((entries@[0].key@, entries@[0].val.dv()));
                                }
                                None
                            },
                        }
                    } else if str_eq(key, "bad_debts_params") {
                        match WireRecord::from_jval(&entries[0].val) {
                            Some(p) => {
                                let x = QuerySlot::BadDebts(p);
                                proof {
                                    assert(x.jval()->Obj_0 =~~= v.dv()->Obj_0);
                                    assert(x.jval() =~~= v.dv());
                                }
                                Some(x)
                            },
                            None => {
                                proof {
                                    lemma_query_slot_reject_bad_debts_params((entries@[0].key@, entries@[0].val.dv()));
                                }
                                None
                            },
                        }
                    } else if str_eq(key, "max_withdraw_params") {
                        match WireRecord::from_jval(&entries[0].val) {
                            Some(p) => {
                                let x = QuerySlot::MaxWithdraw(p);
                                proof {
                                    assert(x.jval()->Obj_0 =~~= v.dv()->Obj_0);
                                    assert(x.jval() =~~= v.dv());
                                }
                                Some(x)
                            },
                            None => {
                                proof {
                                    lemma_query_slot_reject_max_withdraw_params((entries@[0].key@, entries@[0].val.dv()));
                                }
                                None
                            },
                        }
                    } else if str_eq(key, "max_borrow_params") {
                        match WireRecord::from_jval(&entries[0].val) {
                            Some(p) => {
                                let x = QuerySlot::MaxBorrow(p);
                                proof {
                                    assert(x.jval()->Obj_0 =~~= v.dv()->Obj_0);
                                    assert(x.jval() =~~= v.dv());
                                }
                                Some(x)
                            },
                            None => {
                                proof {
                                    lemma_query_slot_reject_max_borrow_params((entries@[0].key@, entries@[0].val.dv()));
                                }
                                None
                            },
                        }
                    } else if str_eq(key, "medians_params") {
                        match WireRecord::from_jval(&entries[0].val) {
                            Some(p) => {
                                let x = QuerySlot::Medians(p);
                                proof {
                                    assert(x.jval()->Obj_0 =~~= v.dv()->Obj_0);
                                    assert(x.jval() =~~= v.dv());
                                }
                                Some(x)
                            },
                            None => {
                                proof {
                                    lemma_query_slot_reject_medians_params((entries@[0].key@, entries@[0].val.dv()));
                                }
                                None
                            },
                        }
                    } else if str_eq(key, "median_deviations_params") {
                        match WireRecord::from_jval(&entries[0].val) {
                            Some(p) => {
                                let x = QuerySlot::MedianDeviations(p);
                                proof {
                                    assert(x.jval()->Obj_0 =~~= v.dv()->Obj_0);
                                    assert(x.jval() =~~= v.dv());
                                }
                                Some(x)
                            },
                            None => {
                                proof {
                                    lemma_query_slot_reject_median_deviations_params((entries@[0].key@, entries@[0].val.dv()));
                                }
                                None
                            },
                        }
                    } else if str_eq(key, "incentive_parameters") {
                        match WireRecord::from_jval(&entries[0].val) {
                            Some(p) => {
                                let x = QuerySlot::IncentiveParameters(p);
                                proof {
                                    assert(x.jval()->Obj_0 =~~= v.dv()->Obj_0);
                                    assert(x.jval() =~~= v.dv());
                                }
                                Some(x)
                            },
                            None => {
                                proof {
                                    lemma_query_slot_reject_incentive_parameters((entries@[0].key@, entries@[0].val.dv()));
                                }
                                None
                            },
                        }
                    } else if str_eq(key, "total_bonded") {
                        match WireRecord::from_jval(&entries[0].val) {
                            Some(p) => {
                                let x = QuerySlot::TotalBonded(p);
                                proof {
                                    assert(x.jval()->Obj_0 =~~= v.dv()->Obj_0);
                                    assert(x.jval() =~~= v.dv());
                                }
                                Some(x)
                            },
                            None => {
                                proof {
                                    lemma_query_slot_reject_total_bonded((entries@[0].key@, entries@[0].val.dv()));
                                }
                                None
                            },
                        }
                    } else if str_eq(key, "total_unbonding") {
                        match WireRecord::from_jval(&entries[0].val) {
                            Some(p) => {
                                let x = QuerySlot::TotalUnbonding(p);
                                proof {
                                    assert(x.jval()->Obj_0 =~~= v.dv()->Obj_0);
                                    assert(x.jval() =~~= v.dv());
                                }
                                Some(x)
                            },
                            None => {
                                proof {
                                    lemma_query_slot_reject_total_unbonding((entries@[0].key@, entries@[0].val.dv()));
                                }
                                None
                            },
                        }
                    } else if str_eq(key, "account_bonds") {
                        match WireRecord::from_jval(&entries[0].val) {
                            Some(p) => {
                                let x = QuerySlot::AccountBonds(p);
                                proof {
                                    assert(x.jval()->Obj_0 =~~= v.dv()->Obj_0);
                                    assert(x.jval() =~~= v.dv());
                                }
                                Some(x)
                            },
                            None => {
                                proof {
                                    lemma_query_slot_reject_account_bonds((entries@[0].key@, entries@[0].val.dv()));
                                }
                                None
                            },
                        }
                    } else if str_eq(key, "pending_rewards") {
                        match WireRecord::from_jval(&entries[0].val) {
                            Some(p) => {
                                let x = QuerySlot::PendingRewards(p);
                                proof {
                                    assert(x.jval()->Obj_0 =~~= v.dv()->Obj_0);
                                    assert(x.jval() =~~= v.dv());
                                }
                                Some(x)
                            },
                            None => {
                                proof {
                                    lemma_query_slot_reject_pending_rewards((entries@[0].key@, entries@[0].val.dv()));
                                }
                                None
                            },
                        }
                    } else if str_eq(key, "completed_incentive_programs") {
                        match WireRecord::from_jval(&entries[0].val) {
                            Some(p) => {
                                let x = QuerySlot::CompletedIncentivePrograms(p);
                                proof {
                                    assert(x.jval()->Obj_0 =~~= v.dv()->Obj_0);
                                    assert(x.jval() =~~= v.dv());
                                }
                                Some(x)
                            },
                            None => {
                                proof {
                                    lemma_query_slot_reject_completed_incentive_programs((entries@[0].key@, entries@[0].val.dv()));
                                }
                                None
                            },
                        }
                    } else if str_eq(key, "ongoing_incentive_programs") {
                        match WireRecord::from_jval(&entries[0].val) {
                            Some(p) => {
                                let x = QuerySlot::OngoingIncentivePrograms(p);
                                proof {
                                    assert(x.jval()->Obj_0 =~~= v.dv()->Obj_0);
                                    assert(x.jval() =~~= v.dv());
                                }
                                Some(x)
                            },
                            None => {
                                proof {
                                    lemma_query_slot_reject_ongoing_incentive_programs((entries@[0].key@, entries@[0].val.dv()));
                                }
                                None
                            },
                        }
                    } else if str_eq(key, "upcoming_incentive_programs") {
                        match WireRecord::from_jval(&entries[0].val) {
                            Some(p) => {
                                let x = QuerySlot::UpcomingIncentivePrograms(p);
                                proof {
                                    assert(x.jval()->Obj_0 =~~= v.dv()->Obj_0);
                                    assert(x.jval() =~~= v.dv());
                                }
                                Some(x)
                            },
                            None => {
                                proof {
                                    lemma_query_slot_reject_upcoming_incentive_programs((entries@[0].key@, entries@[0].val.dv()));
                                }
                                None
                            },
                        }
                    } else if str_eq(key, "incentive_program") {
                        match WireRecord::from_jval(&entries[0].val) {
                            Some(p) => {
                                let x = QuerySlot::IncentiveProgram(p);
                                proof {
                                    assert(x.jval()->Obj_0 =~~= v.dv()->Obj_0);
                                    assert(x.jval() =~~= v.dv());
                                }
                                Some(x)
                            },
                            None => {
                                proof {
                                    lemma_query_slot_reject_incentive_program((entries@[0].key@, entries@[0].val.dv()));
                                }
                                None
                            },
                        }
                    } else if str_eq(key, "current_rates") {
                        match WireRecord::from_jval(&entries[0].val) {
                            Some(p) => {
                                let x = QuerySlot::CurrentRates(p);
                                proof {
                                    assert(x.jval()->Obj_0 =~~= v.dv()->Obj_0);
                                    assert(x.jval() =~~= v.dv());
                                }
                                Some(x)
                            },
                            None => {
                                proof {
                                    lemma_query_slot_reject_current_rates((entries@[0].key@, entries@[0].val.dv()));
                                }
                                None
                            },
                        }
                    } else if str_eq(key, "actual_rates") {
                        match WireRecord::from_jval(&entries[0].val) {
                            Some(p) => {
                                let x = QuerySlot::ActualRates(p);
                                proof {
                                    assert(x.jval()->Obj_0 =~~= v.dv()->Obj_0);
                                    assert(x.jval() =~~= v.dv());
                                }
                                Some(x)
                            },
                            None => {
                                proof {
                                    lemma_query_slot_reject_actual_rates((entries@[0].key@, entries@[0].val.dv()));
                                }
                                None
                            },
                        }
                    } else if str_eq(key, "last_reward_time") {
                        match WireRecord::from_jval(&entries[0].val) {
                            Some(p) => {
                                let x = QuerySlot::LastRewardTime(p);
                                proof {
                                    assert(x.jval()->Obj_0 =~~= v.dv()->Obj_0);
                                    assert(x.jval() =~~= v.dv());
                                }
                                Some(x)
                            },
                            None => {
                                proof {
                                    lemma_query_slot_reject_last_reward_time((entries@[0].key@, entries@[0].val.dv()));
                                }
                                None
                            },
                        }
                    } else if str_eq(key, "metoken_parameters") {
                        match WireRecord::from_jval(&entries[0].val) {
                            Some(p) => {
                                let x = QuerySlot::MetokenParameters(p);
                                proof {
                                    assert(x.jval()->Obj_0 =~~= v.dv()->Obj_0);
                                    assert(x.jval() =~~= v.dv());
                                }
                                Some(x)
                            },
                            None => {
                                proof {
                                    lemma_query_slot_reject_metoken_parameters((entries@[0].key@, entries@[0].val.dv()));
                                }
                                None
                            },
                        }
                    } else if str_eq(key, "metoken_indexes") {
                        match WireRecord::from_jval(&entries[0].val) {
                            Some(p) => {
                                let x = QuerySlot::MetokenIndexes(p);
                                proof {
                                    assert(x.jval()->Obj_0 =~~= v.dv()->Obj_0);
                                    assert(x.jval() =~~= v.dv());
                                }
                                Some(x)
                            },
                            None => {
                                proof {
                                    lemma_query_slot_reject_metoken_indexes((entries@[0].key@, entries@[0].val.dv()));
                                }
                                None
                            },
                        }
                    } else if str_eq(key, "metoken_swapfee") {
                        match WireRecord::from_jval(&entries[0].val) {
                            Some(p) => {
                                let x = QuerySlot::MetokenSwapfee(p);
                                proof {
                                    assert(x.jval()->Obj_0 =~~= v.dv()->Obj_0);
                                    assert(x.jval() =~~= v.dv());
                                }
                                Some(x)
                            },
                            None => {
                                proof {
                                    lemma_query_slot_reject_metoken_swapfee((entries@[0].key@, entries@[0].val.dv()));
                                }
                                None
                            },
                        }
                    } else if str_eq(key, "metoken_redeemfee") {
                        match WireRecord::from_jval(&entries[0].val) {
                            Some(p) => {
                                let x = QuerySlot::MetokenRedeemfee(p);
                                proof {
                                    assert(x.jval()->Obj_0 =~~= v.dv()->Obj_0);
                                    assert(x.jval() =~~= v.dv());
                                }
                                Some(x)
                            },
                            None => {
                                proof {
                                    lemma_query_slot_reject_metoken_redeemfee((entries@[0].key@, entries@[0].val.dv()));
                                }
                                None
                            },
                        }
                    } else if str_eq(key, "metoken_indexbalances") {
                        match WireRecord::from_jval(&entries[0].val) {
                            Some(p) => {
                                let x = QuerySlot::MetokenIndexbalances(p);
                                proof {
                                    assert(x.jval()->Obj_0 =~~= v.dv()->Obj_0);
                                    assert(x.jval() =~~= v.dv());
                                }
                                Some(x)
                            },
                            None => {
                                proof {
                                    lemma_query_slot_reject_metoken_indexbalances((entries@[0].key@, entries@[0].val.dv()));
                                }
                                None
                            },
                        }
                    } else if str_eq(key, "metoken_indexprice") {
                        match WireRecord::from_jval(&entries[0].val) {
                            Some(p) => {
                                let x = QuerySlot::MetokenIndexprice(p);
                                proof {
                                    assert(x.jval()->Obj_0 =~~= v.dv()->Obj_0);
                                    assert(x.jval() =~~= v.dv());
                                }
                                Some(x)
                            },
                            None => {
                                proof {
                                    lemma_query_slot_reject_metoken_indexprice((entries@[0].key@, entries@[0].val.dv()));
                                }
                                None
                            },
                        }
                    } else {
                        proof {
                            lemma_query_slot_reject_other((entries@[0].key@, entries@[0].val.dv()));
                        }
                        None
                    }
                } else {
                    proof {
                        assert forall|x: QuerySlot| v.dv() != #[trigger] x.jval() by {
                            lemma_query_slot_shape(x);
                        }
                    }
                    None
                }
            },
            _ => {
                proof {
                    assert forall|x: QuerySlot| v.dv() != #[trigger] x.jval() by {
                        lemma_query_slot_shape(x);
                    }
                }
                None
            },
        }
    }
}
/// The query envelope: a wide record with exactly one populated slot.
#[derive(Clone, Debug, PartialEq, Eq)]
pub struct StructUmeeQuery {
    slot: QuerySlot,
}

impl StructUmeeQuery {
    /// The canonical name of the populated slot.
    pub closed spec fn assigned_name(self) -> Seq<char> {
        self.slot.jval()->Obj_0[0].0
    }
}

impl WireRecord for StructUmeeQuery {
    closed spec fn jval(self) -> JsonSpec {
        self.slot.jval()
    }

    proof fn jval_wf(self) {
        self.slot.jval_wf();
    }

    fn build_jval(&self) -> (r: JsonVal) {
        self.slot.build_jval()
    }

    fn from_jval(v: &JsonVal) -> (r: Option<StructUmeeQuery>) {
        match QuerySlot::from_jval(v) {
            Some(s) => Some(StructUmeeQuery { slot: s }),
            None => {
                proof {
                    assert forall|x: StructUmeeQuery| v.dv() != #[trigger] x.jval() by {
                        assert(x.jval() == x.slot.jval());
                    }
                }
                None
            },
        }
    }
}

/// Single-slot invariant: every query envelope's wire record holds exactly
/// one slot, keyed by the envelope's canonical name.
pub proof fn lemma_query_single_slot(q: StructUmeeQuery)
    ensures
        q.jval() matches JsonSpec::Obj(es) && es.len() == 1,
        q.jval()->Obj_0[0].0 == q.assigned_name(),
{
    match q.slot {
        QuerySlot::ExchangeRates(p) => {
            assert(q.jval()->Obj_0.len() == 1);
        },
        QuerySlot::LeverageParameters(p) => {
            assert(q.jval()->Obj_0.len() == 1);
        },
        QuerySlot::MarketSummary(p) => {
            assert(q.jval()->Obj_0.len() == 1);
        },
        QuerySlot::AccountBalances(p) => {
            assert(q.jval()->Obj_0.len() == 1);
        },
        QuerySlot::AccountSummary(p) => {
            assert(q.jval()->Obj_0.len() == 1);
        },
        QuerySlot::RegisteredTokens(p) => {
            assert(q.jval()->Obj_0.len() == 1);
        },
        QuerySlot::LiquidationTargets(p) => {
            assert(q.jval()->Obj_0.len() == 1);
        },
        QuerySlot::ActiveExchangeRates(p) => {
            assert(q.jval()->Obj_0.len() == 1);
        },
        QuerySlot::FeederDelegation(p) => {
            assert(q.jval()->Obj_0.len() == 1);
        },
        QuerySlot::MissCounter(p) => {
            assert(q.jval()->Obj_0.len() == 1);
        },
        QuerySlot::SlashWindow(p) => {
            assert(q.jval()->Obj_0.len() == 1);
        },
        QuerySlot::AggregatePrevote(p) => {
            assert(q.jval()->Obj_0.len() == 1);
        },
        QuerySlot::AggregatePrevotes(p) => {
            assert(q.jval()->Obj_0.len() == 1);
        },
        QuerySlot::AggregateVote(p) => {
            assert(q.jval()->Obj_0.len() == 1);
        },
        QuerySlot::AggregateVotes(p) => {
            assert(q.jval()->Obj_0.len() == 1);
        },
        QuerySlot::OracleParams(p) => {
            assert(q.jval()->Obj_0.len() == 1);
        },
        QuerySlot::BadDebts(p) => {
            assert(q.jval()->Obj_0.len() == 1);
        },
        QuerySlot::MaxWithdraw(p) => {
            assert(q.jval()->Obj_0.len() == 1);
        },
        QuerySlot::MaxBorrow(p) => {
            assert(q.jval()->Obj_0.len() == 1);
        },
        QuerySlot::Medians(p) => {
            assert(q.jval()->Obj_0.len() == 1);
        },
        QuerySlot::MedianDeviations(p) => {
            assert(q.jval()->Obj_0.len() == 1);
        },
        QuerySlot::IncentiveParameters(p) => {
            assert(q.jval()->Obj_0.len() == 1);
        },
        QuerySlot::TotalBonded(p) => {
            assert(q.jval()->Obj_0.len() == 1);
        },
        QuerySlot::TotalUnbonding(p) => {
            assert(q.jval()->Obj_0.len() == 1);
        },
        QuerySlot::AccountBonds(p) => {
            assert(q.jval()->Obj_0.len() == 1);
        },
        QuerySlot::PendingRewards(p) => {
            assert(q.jval()->Obj_0.len() == 1);
        },
        QuerySlot::CompletedIncentivePrograms(p) => {
            assert(q.jval()->Obj_0.len() == 1);
        },
        QuerySlot::OngoingIncentivePrograms(p) => {
            assert(q.jval()->Obj_0.len() == 1);
        },
        QuerySlot::UpcomingIncentivePrograms(p) => {
            assert(q.jval()->Obj_0.len() == 1);
        },
        QuerySlot::IncentiveProgram(p) => {
            assert(q.jval()->Obj_0.len() == 1);
        },
        QuerySlot::CurrentRates(p) => {
            assert(q.jval()->Obj_0.len() == 1);
        },
        QuerySlot::ActualRates(p) => {
            assert(q.jval()->Obj_0.len() == 1);
        },
        QuerySlot::LastRewardTime(p) => {
            assert(q.jval()->Obj_0.len() == 1);
        },
        QuerySlot::MetokenParameters(p) => {
            assert(q.jval()->Obj_0.len() == 1);
        },
        QuerySlot::MetokenIndexes(p) => {
            assert(q.jval()->Obj_0.len() == 1);
        },
        QuerySlot::MetokenSwapfee(p) => {
            assert(q.jval()->Obj_0.len() == 1);
        },
        QuerySlot::MetokenRedeemfee(p) => {
            assert(q.jval()->Obj_0.len() == 1);
        },
        QuerySlot::MetokenIndexbalances(p) => {
            assert(q.jval()->Obj_0.len() == 1);
        },
        QuerySlot::MetokenIndexprice(p) => {
            assert(q.jval()->Obj_0.len() == 1);
        },
    }
}

/// Round trip: parsing the canonical wire text of any query envelope
/// yields exactly that envelope's wire record and consumes the whole text;
/// with the contracts of `encode_wire` and `decode_wire` this pins decoding
/// an encoded envelope down to one with the same wire record.
pub proof fn lemma_query_round_trip(q: StructUmeeQuery)
    ensures
        crate::wire::p_json(crate::wire::jenc(q.jval()), 0) == Some(
            (q.jval(), crate::wire::jenc(q.jval()).len() as int),
        ),
{
    crate::record::lemma_wire_round_trip(q);
}

impl StructUmeeQuery {
    /// Builds a `exchange_rates` query envelope.
    pub fn exchange_rates(params: ExchangeRatesParams) -> (r: StructUmeeQuery)
        ensures
            r.jval() == JsonSpec::Obj(seq![("exchange_rates"@, params.jval())]),
            r.assigned_name() == "exchange_rates"@,
    {
        StructUmeeQuery { slot: QuerySlot::ExchangeRates(params) }
    }

    /// Builds a `leverage_parameters` query envelope.
    pub fn leverage_parameters(params: LeverageParametersParams) -> (r: StructUmeeQuery)
        ensures
            r.jval() == JsonSpec::Obj(seq![("leverage_parameters"@, params.jval())]),
            r.assigned_name() == "leverage_parameters"@,
    {
        StructUmeeQuery { slot: QuerySlot::LeverageParameters(params) }
    }

    /// Builds a `market_summary` query envelope.
    pub fn market_summary(params: MarketSummaryParams) -> (r: StructUmeeQuery)
        ensures
            r.jval() == JsonSpec::Obj(seq![("market_summary"@, params.jval())]),
            r.assigned_name() == "market_summary"@,
    {
        StructUmeeQuery { slot: QuerySlot::MarketSummary(params) }
    }

    /// Builds a `account_balances` query envelope.
    pub fn account_balances(params: AccountBalancesParams) -> (r: StructUmeeQuery)
        ensures
            r.jval() == JsonSpec::Obj(seq![("account_balances"@, params.jval())]),
            r.assigned_name() == "account_balances"@,
    {
        StructUmeeQuery { slot: QuerySlot::AccountBalances(params) }
    }

    /// Builds a `account_summary` query envelope.
    pub fn account_summary(params: AccountSummaryParams) -> (r: StructUmeeQuery)
        ensures
            r.jval() == JsonSpec::Obj(seq![("account_summary"@, params.jval())]),
            r.assigned_name() == "account_summary"@,
    {
        StructUmeeQuery { slot: QuerySlot::AccountSummary(params) }
    }

    /// Builds a `registered_tokens` query envelope.
    pub fn registered_tokens(params: RegisteredTokensParams) -> (r: StructUmeeQuery)
        ensures
            r.jval() == JsonSpec::Obj(seq![("registered_tokens"@, params.jval())]),
            r.assigned_name() == "registered_tokens"@,
    {
        StructUmeeQuery { slot: QuerySlot::RegisteredTokens(params) }
    }

    /// Builds a `liquidation_targets` query envelope.
    pub fn liquidation_targets(params: LiquidationTargetsParams) -> (r: StructUmeeQuery)
        ensures
            r.jval() == JsonSpec::Obj(seq![("liquidation_targets"@, params.jval())]),
            r.assigned_name() == "liquidation_targets"@,
    {
        StructUmeeQuery { slot: QuerySlot::LiquidationTargets(params) }
    }

    /// Builds a `active_exchange_rates` query envelope.
    pub fn active_exchange_rates(params: ActiveExchangeRatesParams) -> (r: StructUmeeQuery)
        ensures
            r.jval() == JsonSpec::Obj(seq![("active_exchange_rates"@, params.jval())]),
            r.assigned_name() == "active_exchange_rates"@,
    {
        StructUmeeQuery { slot: QuerySlot::ActiveExchangeRates(params) }
    }

    /// Builds a `feeder_delegation` query envelope.
    pub fn feeder_delegation(params: FeederDelegationParams) -> (r: StructUmeeQuery)
        ensures
            r.jval() == JsonSpec::Obj(seq![("feeder_delegation"@, params.jval())]),
            r.assigned_name() == "feeder_delegation"@,
    {
        StructUmeeQuery { slot: QuerySlot::FeederDelegation(params) }
    }

    /// Builds a `miss_counter` query envelope.
    pub fn miss_counter(params: MissCounterParams) -> (r: StructUmeeQuery)
        ensures
            r.jval() == JsonSpec::Obj(seq![("miss_counter"@, params.jval())]),
            r.assigned_name() == "miss_counter"@,
    {
        StructUmeeQuery { slot: QuerySlot::MissCounter(params) }
    }

    /// Builds a `slash_window` query envelope.
    pub fn slash_window(params: SlashWindowParams) -> (r: StructUmeeQuery)
        ensures
            r.jval() == JsonSpec::Obj(seq![("slash_window"@, params.jval())]),
            r.assigned_name() == "slash_window"@,
    {
        StructUmeeQuery { slot: QuerySlot::SlashWindow(params) }
    }

    /// Builds a `aggregate_prevote` query envelope.
    pub fn aggregate_prevote(params: AggregatePrevoteParams) -> (r: StructUmeeQuery)
        ensures
            r.jval() == JsonSpec::Obj(seq![("aggregate_prevote"@, params.jval())]),
            r.assigned_name() == "aggregate_prevote"@,
    {
        StructUmeeQuery { slot: QuerySlot::AggregatePrevote(params) }
    }

    /// Builds a `aggregate_prevotes` query envelope.
    pub fn aggregate_prevotes(params: AggregatePrevotesParams) -> (r: StructUmeeQuery)
        ensures
            r.jval() == JsonSpec::Obj(seq![("aggregate_prevotes"@, params.jval())]),
            r.assigned_name() == "aggregate_prevotes"@,
    {
        StructUmeeQuery { slot: QuerySlot::AggregatePrevotes(params) }
    }

    /// Builds a `aggregate_vote` query envelope.
    pub fn aggregate_vote(params: AggregateVoteParams) -> (r: StructUmeeQuery)
        ensures
            r.jval() == JsonSpec::Obj(seq![("aggregate_vote"@, params.jval())]),
            r.assigned_name() == "aggregate_vote"@,
    {
        StructUmeeQuery { slot: QuerySlot::AggregateVote(params) }
    }

    /// Builds a `aggregate_votes` query envelope.
    pub fn aggregate_votes(params: AggregateVotesParams) -> (r: StructUmeeQuery)
        ensures
            r.jval() == JsonSpec::Obj(seq![("aggregate_votes"@, params.jval())]),
            r.assigned_name() == "aggregate_votes"@,
    {
        StructUmeeQuery { slot: QuerySlot::AggregateVotes(params) }
    }

    /// Builds a `oracle_params` query envelope.
    pub fn oracle_parameters(params: OracleParametersParams) -> (r: StructUmeeQuery)
        ensures
            r.jval() == JsonSpec::Obj(seq![("oracle_params"@, params.jval())]),
            r.assigned_name() == "oracle_params"@,
    {
        StructUmeeQuery { slot: QuerySlot::OracleParams(params) }
    }

    /// Builds a `bad_debts_params` query envelope.
    pub fn bad_debts_parameters(params: BadDebtsParams) -> (r: StructUmeeQuery)
        ensures
            r.jval() == JsonSpec::Obj(seq![("bad_debts_params"@, params.jval())]),
            r.assigned_name() == "bad_debts_params"@,
    {
        StructUmeeQuery { slot: QuerySlot::BadDebts(params) }
    }

    /// Builds a `max_withdraw_params` query envelope.
    pub fn max_withdraw_params(params: MaxWithdrawParams) -> (r: StructUmeeQuery)
        ensures
            r.jval() == JsonSpec::Obj(seq![("max_withdraw_params"@, params.jval())]),
            r.assigned_name() == "max_withdraw_params"@,
    {
        StructUmeeQuery { slot: QuerySlot::MaxWithdraw(params) }
    }

    /// Builds a `max_borrow_params` query envelope.
    pub fn max_borrow_params(params: MaxBorrowParams) -> (r: StructUmeeQuery)
        ensures
            r.jval() == JsonSpec::Obj(seq![("max_borrow_params"@, params.jval())]),
            r.assigned_name() == "max_borrow_params"@,
    {
        StructUmeeQuery { slot: QuerySlot::MaxBorrow(params) }
    }

    /// Builds a `medians_params` query envelope.
    pub fn medians_params(params: MediansParams) -> (r: StructUmeeQuery)
        ensures
            r.jval() == JsonSpec::Obj(seq![("medians_params"@, params.jval())]),
            r.assigned_name() == "medians_params"@,
    {
        StructUmeeQuery { slot: QuerySlot::Medians(params) }
    }

    /// Builds a `median_deviations_params` query envelope.
    pub fn median_deviations_params(params: MedianDeviationsParams) -> (r: StructUmeeQuery)
        ensures
            r.jval() == JsonSpec::Obj(seq![("median_deviations_params"@, params.jval())]),
            r.assigned_name() == "median_deviations_params"@,
    {
        StructUmeeQuery { slot: QuerySlot::MedianDeviations(params) }
    }

    /// Builds a `incentive_parameters` query envelope.
    pub fn incentive_params(params: IncentiveParametersParams) -> (r: StructUmeeQuery)
        ensures
            r.jval() == JsonSpec::Obj(seq![("incentive_parameters"@, params.jval())]),
            r.assigned_name() == "incentive_parameters"@,
    {
        StructUmeeQuery { slot: QuerySlot::IncentiveParameters(params) }
    }

    /// Builds a `total_bonded` query envelope.
    pub fn total_bonded(params: TotalBondedParams) -> (r: StructUmeeQuery)
        ensures
            r.jval() == JsonSpec::Obj(seq![("total_bonded"@, params.jval())]),
            r.assigned_name() == "total_bonded"@,
    {
        StructUmeeQuery { slot: QuerySlot::TotalBonded(params) }
    }

    /// Builds a `total_unbonding` query envelope.
    pub fn total_unbonding(params: TotalUnbondingParams) -> (r: StructUmeeQuery)
        ensures
            r.jval() == JsonSpec::Obj(seq![("total_unbonding"@, params.jval())]),
            r.assigned_name() == "total_unbonding"@,
    {
        StructUmeeQuery { slot: QuerySlot::TotalUnbonding(params) }
    }

    /// Builds a `account_bonds` query envelope.
    pub fn account_bonds(params: AccountBondsParams) -> (r: StructUmeeQuery)
        ensures
            r.jval() == JsonSpec::Obj(seq![("account_bonds"@, params.jval())]),
            r.assigned_name() == "account_bonds"@,
    {
        StructUmeeQuery { slot: QuerySlot::AccountBonds(params) }
    }

    /// Builds a `pending_rewards` query envelope.
    pub fn pending_rewards(params: PendingRewardsParams) -> (r: StructUmeeQuery)
        ensures
            r.jval() == JsonSpec::Obj(seq![("pending_rewards"@, params.jval())]),
            r.assigned_name() == "pending_rewards"@,
    {
        StructUmeeQuery { slot: QuerySlot::PendingRewards(params) }
    }

    /// Builds a `completed_incentive_programs` query envelope.
    pub fn completed_incentive_programs(params: CompletedIncentiveProgramsParams) -> (r: StructUmeeQuery)
        ensures
            r.jval() == JsonSpec::Obj(seq![("completed_incentive_programs"@, params.jval())]),
            r.assigned_name() == "completed_incentive_programs"@,
    {
        StructUmeeQuery { slot: QuerySlot::CompletedIncentivePrograms(params) }
    }

    /// Builds a `ongoing_incentive_programs` query envelope.
    pub fn ongoing_incentive_programs(params: OngoingIncentiveProgramsParams) -> (r: StructUmeeQuery)
        ensures
            r.jval() == JsonSpec::Obj(seq![("ongoing_incentive_programs"@, params.jval())]),
            r.assigned_name() == "ongoing_incentive_programs"@,
    {
        StructUmeeQuery { slot: QuerySlot::OngoingIncentivePrograms(params) }
    }

    /// Builds a `upcoming_incentive_programs` query envelope.
    pub fn upcoming_incentive_programs(params: UpcomingIncentiveProgramsParams) -> (r: StructUmeeQuery)
        ensures
            r.jval() == JsonSpec::Obj(seq![("upcoming_incentive_programs"@, params.jval())]),
            r.assigned_name() == "upcoming_incentive_programs"@,
    {
        StructUmeeQuery { slot: QuerySlot::UpcomingIncentivePrograms(params) }
    }

    /// Builds a `incentive_program` query envelope.
    pub fn incentive_program(params: IncentiveProgramParams) -> (r: StructUmeeQuery)
        ensures
            r.jval() == JsonSpec::Obj(seq![("incentive_program"@, params.jval())]),
            r.assigned_name() == "incentive_program"@,
    {
        StructUmeeQuery { slot: QuerySlot::IncentiveProgram(params) }
    }

    /// Builds a `current_rates` query envelope.
    pub fn current_rates(params: CurrentRatesParams) -> (r: StructUmeeQuery)
        ensures
            r.jval() == JsonSpec::Obj(seq![("current_rates"@, params.jval())]),
            r.assigned_name() == "current_rates"@,
    {
        StructUmeeQuery { slot: QuerySlot::CurrentRates(params) }
    }

    /// Builds a `actual_rates` query envelope.
    pub fn actual_rates(params: ActualRatesParams) -> (r: StructUmeeQuery)
        ensures
            r.jval() == JsonSpec::Obj(seq![("actual_rates"@, params.jval())]),
            r.assigned_name() == "actual_rates"@,
    {
        StructUmeeQuery { slot: QuerySlot::ActualRates(params) }
    }

    /// Builds a `last_reward_time` query envelope.
    pub fn last_reward_time(params: LastRewardTimeParams) -> (r: StructUmeeQuery)
        ensures
            r.jval() == JsonSpec::Obj(seq![("last_reward_time"@, params.jval())]),
            r.assigned_name() == "last_reward_time"@,
    {
        StructUmeeQuery { slot: QuerySlot::LastRewardTime(params) }
    }

    /// Builds a `metoken_parameters` query envelope.
    pub fn metoken_parameters(params: MetokenParametersParams) -> (r: StructUmeeQuery)
        ensures
            r.jval() == JsonSpec::Obj(seq![("metoken_parameters"@, params.jval())]),
            r.assigned_name() == "metoken_parameters"@,
    {
        StructUmeeQuery { slot: QuerySlot::MetokenParameters(params) }
    }

    /// Builds a `metoken_indexes` query envelope.
    pub fn metoken_indexes(params: MetokenIndexesParams) -> (r: StructUmeeQuery)
        ensures
            r.jval() == JsonSpec::Obj(seq![("metoken_indexes"@, params.jval())]),
            r.assigned_name() == "metoken_indexes"@,
    {
        StructUmeeQuery { slot: QuerySlot::MetokenIndexes(params) }
    }

    /// Builds a `metoken_swapfee` query envelope.
    pub fn metoken_swapfee(params: MetokenSwapfeeParams) -> (r: StructUmeeQuery)
        ensures
            r.jval() == JsonSpec::Obj(seq![("metoken_swapfee"@, params.jval())]),
            r.assigned_name() == "metoken_swapfee"@,
    {
        StructUmeeQuery { slot: QuerySlot::MetokenSwapfee(params) }
    }

    /// Builds a `metoken_redeemfee` query envelope.
    pub fn metoken_redeemfee(params: MetokenRedeemfeeParams) -> (r: StructUmeeQuery)
        ensures
            r.jval() == JsonSpec::Obj(seq![("metoken_redeemfee"@, params.jval())]),
            r.assigned_name() == "metoken_redeemfee"@,
    {
        StructUmeeQuery { slot: QuerySlot::MetokenRedeemfee(params) }
    }

    /// Builds a `metoken_indexbalances` query envelope.
    pub fn metoken_indexbalances(params: MetokenIndexbalancesParams) -> (r: StructUmeeQuery)
        ensures
            r.jval() == JsonSpec::Obj(seq![("metoken_indexbalances"@, params.jval())]),
            r.assigned_name() == "metoken_indexbalances"@,
    {
        StructUmeeQuery { slot: QuerySlot::MetokenIndexbalances(params) }
    }

    /// Builds a `metoken_indexprice` query envelope.
    pub fn metoken_indexprice(params: MetokenIndexPricesParams) -> (r: StructUmeeQuery)
        ensures
            r.jval() == JsonSpec::Obj(seq![("metoken_indexprice"@, params.jval())]),
            r.assigned_name() == "metoken_indexprice"@,
    {
        StructUmeeQuery { slot: QuerySlot::MetokenIndexprice(params) }
    }

}

} // verus!
