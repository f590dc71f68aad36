//! The contract itself: the owner state machine and the host bridge.
//!
//! Execution is synchronous and crosses the trust boundary in exactly one
//! place, the raw host query. Everything around that call is verified: the
//! request put on the wire is the canonical text of the built envelope, the
//! three-tier outcome is classified exactly (`spec_classify`), success
//! bytes decode into the expected typed response exactly when they are its
//! canonical wire text, and every router pins each message kind to its own
//! request shape and response type (`spec_bridged`, `spec_routed`). The
//! owner transition refuses every caller but the current owner.

use vstd::prelude::*;

use crate::base::{Addr, Coin};
use crate::contract_msg::{ExecuteMsg, InstantiateMsg, OwnerResponse, QueryMsg, QueryRequest};
use crate::error::{BridgeError, ContractError};
use crate::msg::{leverage_msg_dispatched, msg_chain, StructUmeeMsg, UmeeMsg};
use crate::msg_leverage::UmeeMsgLeverage;
use crate::query::{StructUmeeQuery, UmeeQuery};
use crate::query_incentive::{AccountBondsParams, AccountBondsResponse, ActualRatesParams, ActualRatesResponse, CompletedIncentiveProgramsParams, CompletedIncentiveProgramsResponse, CurrentRatesParams, CurrentRatesResponse, IncentiveParametersParams, IncentiveParametersResponse, IncentiveProgramParams, IncentiveProgramResponse, LastRewardTimeParams, LastRewardTimeResponse, OngoingIncentiveProgramsParams, OngoingIncentiveProgramsResponse, PendingRewardsParams, PendingRewardsResponse, TotalBondedParams, TotalBondedResponse, TotalUnbondingParams, TotalUnbondingResponse, UmeeQueryIncentive, UpcomingIncentiveProgramsParams, UpcomingIncentiveProgramsResponse};
use crate::query_leverage::{AccountBalancesParams, AccountBalancesResponse, AccountSummaryParams, AccountSummaryResponse, BadDebtsParams, BadDebtsResponse, LeverageParametersParams, LeverageParametersResponse, LiquidationTargetsParams, LiquidationTargetsResponse, MarketSummaryParams, MarketSummaryResponse, MaxBorrowParams, MaxBorrowResponse, MaxWithdrawParams, MaxWithdrawResponse, RegisteredTokensParams, RegisteredTokensResponse, UmeeQueryLeverage};
use crate::query_metoken::{MetokenIndexPricesParams, MetokenIndexPricesResponse, MetokenIndexbalancesParams, MetokenIndexbalancesResponse, MetokenIndexesParams, MetokenIndexesResponse, MetokenParametersParams, MetokenParametersResponse, MetokenRedeemfeeParams, MetokenRedeemfeeResponse, MetokenSwapfeeParams, MetokenSwapfeeResponse, UmeeQueryMeToken};
use crate::query_oracle::{ActiveExchangeRatesParams, ActiveExchangeRatesResponse, AggregatePrevoteParams, AggregatePrevoteResponse, AggregatePrevotesParams, AggregatePrevotesResponse, AggregateVoteParams, AggregateVoteResponse, AggregateVotesParams, AggregateVotesResponse, ExchangeRatesParams, ExchangeRatesResponse, FeederDelegationParams, FeederDelegationResponse, MedianDeviationsParams, MedianDeviationsParamsResponse, MediansParams, MediansParamsResponse, MissCounterParams, MissCounterResponse, OracleParametersParams, OracleParametersResponse, SlashWindowParams, SlashWindowResponse, UmeeQueryOracle};
use crate::record::{decode_wire, encode_wire, WireRecord};
use crate::response::Response;
use crate::state::State;
use crate::wire::{jenc, p_json, JsonSpec};
use vstd::utf8::{decode_utf8, encode_utf8, valid_utf8};

verus! {

broadcast use vstd::string::group_string_axioms, vstd::utf8::encode_utf8_valid_utf8, vstd::utf8::encode_utf8_decode_utf8;

/// The sender of the current call and the funds it carries.
#[derive(Clone, Debug, PartialEq, Eq)]
pub struct MessageInfo {
    pub sender: Addr,
    pub funds: Vec<Coin>,
}

/// The three-tier outcome of one raw host call.
#[derive(Clone, Debug, PartialEq, Eq)]
pub enum HostResult {
    /// The host-level transport itself failed.
    SystemFailure { detail: String },
    /// The native module understood the request and rejected it.
    RemoteRejection { detail: String },
    /// The native module answered with these bytes.
    Success { data: Vec<u8> },
}

/// Relies on `String::from_utf8`: accepts exactly valid UTF-8 and preserves
/// the bytes.
#[verifier::external_body]
fn bytes_to_text(data: Vec<u8>) -> (r: Option<String>)
    ensures
        r matches Some(s) ==> encode_utf8(s@) == data@,
        r is None ==> !valid_utf8(data@),
{
    String::from_utf8(data).ok()
}

/// The exact classification of a three-tier outcome.
pub open spec fn spec_classify(result: HostResult) -> Result<Vec<u8>, BridgeError> {
    match result {
        HostResult::SystemFailure { detail } => Err(BridgeError::System { detail }),
        HostResult::RemoteRejection { detail } => Err(BridgeError::Remote { detail }),
        HostResult::Success { data } => Ok(data),
    }
}

/// The wire record of a native request carrying one custom envelope slot
/// under the host's fixed `custom` key.
pub open spec fn custom_request(slot: Seq<char>, payload: JsonSpec) -> JsonSpec {
    JsonSpec::Obj(seq![("custom"@, JsonSpec::Obj(seq![(slot, payload)]))])
}

/// How a typed bridge result follows from one host outcome: failures are
/// its exact classification, and success bytes decode exactly when they are
/// the canonical UTF-8 wire text of one response value, to that value.
pub open spec fn spec_bridge_result<T: WireRecord>(o: HostResult, r: Result<T, BridgeError>) -> bool {
    match spec_classify(o) {
        Err(e) => r == Err::<T, BridgeError>(e),
        Ok(data) => match r {
            Ok(x) => exists|s: Seq<char>|
                #[trigger] encode_utf8(s) == data@ && p_json(s, 0) == Some(
                    (x.jval(), s.len() as int),
                ),
            Err(e) => (e matches BridgeError::Decode { .. }) && (forall|x: T, s: Seq<char>|
                #[trigger] encode_utf8(s) == data@ ==> p_json(s, 0) != Some(
                    (#[trigger] x.jval(), s.len() as int),
                )),
        },
    }
}

/// One bridged call: some canonical text of the request shape was put to
/// the host, and the typed result follows from the outcome it returned.
pub open spec fn spec_bridged<T: WireRecord, F: Fn(String) -> HostResult>(
    host: F,
    req: JsonSpec,
    r: Result<T, BridgeError>,
) -> bool {
    exists|w: String, o: HostResult|
        {
            &&& w@ == jenc(req)
            &&& #[trigger] call_ensures(host, (w,), o)
            &&& spec_bridge_result::<T>(o, r)
        }
}

/// One routed call: a bridged typed result, re-encoded to its canonical
/// wire text on success.
pub open spec fn spec_routed<T: WireRecord, F: Fn(String) -> HostResult>(
    host: F,
    req: JsonSpec,
    r: Result<String, BridgeError>,
) -> bool {
    exists|tr: Result<T, BridgeError>|
        {
            &&& #[trigger] spec_bridged::<T, F>(host, req, tr)
            &&& match tr {
                Ok(x) => r matches Ok(s) && s@ == jenc(x.jval()),
                Err(e) => r == Err::<String, BridgeError>(e),
            }
        }
}

/// One verbatim passthrough: the host's success bytes come back as text
/// unchanged, or as a decode error where they are not text.
pub open spec fn spec_passthrough<F: Fn(String) -> HostResult>(
    host: F,
    req: JsonSpec,
    r: Result<String, BridgeError>,
) -> bool {
    exists|w: String, o: HostResult|
        {
            &&& w@ == jenc(req)
            &&& #[trigger] call_ensures(host, (w,), o)
            &&& match spec_classify(o) {
                Err(e) => r == Err::<String, BridgeError>(e),
                Ok(data) => match r {
                    Ok(s) => encode_utf8(s@) == data@,
                    Err(e) => (e matches BridgeError::Decode { .. }) && !valid_utf8(data@),
                },
            }
        }
}

/// Classifies the three-tier outcome of a host call: a transport failure
/// becomes a system error, a rejection by the native module a remote error,
/// and success hands the answer bytes on. Nothing is retried.
pub fn classify_host_result(result: HostResult) -> (r: Result<Vec<u8>, BridgeError>)
    ensures
        r == spec_classify(result),
{
    match result {
        HostResult::SystemFailure { detail } => Err(BridgeError::System { detail }),
        HostResult::RemoteRejection { detail } => Err(BridgeError::Remote { detail }),
        HostResult::Success { data } => Ok(data),
    }
}

/// Decodes the success bytes of a host call into the expected typed
/// response: exactly the valid UTF-8 texts that are the canonical wire
/// shape of one response value decode, and to that value.
pub fn decode_response<T: WireRecord>(data: Vec<u8>) -> (r: Result<T, BridgeError>)
    ensures
        r matches Ok(x) ==> exists|s: Seq<char>|
            encode_utf8(s) == data@ && p_json(s, 0) == Some((#[trigger] x.jval(), s.len() as int)),
        r matches Err(e) ==> (e matches BridgeError::Decode { .. }) && (forall|x: T, s: Seq<char>|
            #[trigger] encode_utf8(s) == data@ ==> p_json(s, 0) != Some(
                (#[trigger] x.jval(), s.len() as int),
            )),
{
    match bytes_to_text(data) {
        None => Err(BridgeError::Decode { detail: String::from_str("response bytes are not text") }),
        Some(text) => {
            match decode_wire::<T>(text.as_str()) {
                Some(x) => {
                    proof {
                        assert(encode_utf8(text@) == data@ && p_json(text@, 0) == Some(
                            (x.jval(), text@.len() as int),
                        ));
                    }
                    Ok(x)
                },
                None => {
                    proof {
                        assert forall|x: T, s: Seq<char>|
                            #[trigger] encode_utf8(s) == data@ implies p_json(s, 0) != Some(
                            (#[trigger] x.jval(), s.len() as int),
                        ) by {
                            assert(decode_utf8(encode_utf8(s)) == s);
                            assert(decode_utf8(encode_utf8(text@)) == text@);
                            assert(s == text@);
                        }
                    }
                    Err(BridgeError::Decode { detail: String::from_str("response bytes are not the expected shape") })
                },
            }
        },
    }
}

/// Performs one native query: encodes the request to its canonical wire
/// text, makes the single raw host call, and classifies the three-tier
/// outcome. The host port is the one place execution leaves this library;
/// which outcome it returns is opaque, so the contract holds for every
/// outcome: the text put to the host is exactly the request's canonical
/// encoding, and the result is exactly the classification of what came
/// back. The encoding step is total, so an encode error never arises.
pub fn query_chain<F: Fn(String) -> HostResult>(
    host: &F,
    request: &QueryRequest<StructUmeeQuery>,
) -> (r: Result<Vec<u8>, BridgeError>)
    requires
        forall|s: String| call_requires(*host, (s,)),
    ensures
        exists|w: String, o: HostResult|
            {
                &&& w@ == jenc(request.jval())
                &&& #[trigger] call_ensures(*host, (w,), o)
                &&& r == spec_classify(o)
            },
        r matches Err(e) ==> !(e matches BridgeError::Encode { .. }),
{
    let wire = encode_wire(request);
    let ghost gwire = wire;
    let outcome = host(wire);
    let r = classify_host_result(outcome);
    proof {
        assert(gwire@ == jenc(request.jval()) && call_ensures(*host, (gwire,), outcome) && r
            == spec_classify(outcome));
    }
    r
}

// ---------------------------------------------------------------------------
// Owner state machine
// ---------------------------------------------------------------------------

/// Creates the contract state: the sender becomes the owner.
pub fn instantiate(info: MessageInfo, _msg: InstantiateMsg) -> (r: (State, Response<StructUmeeMsg>))
    ensures
        r.0.owner@ == info.sender@,
        r.1.messages@.len() == 0,
        r.1.attributes@.len() == 2,
        r.1.attributes@[0].key@ == "method"@ && r.1.attributes@[0].value@ == "instantiate"@,
        r.1.attributes@[1].key@ == "owner"@ && r.1.attributes@[1].value@ == info.sender@,
{
    let owner_text = info.sender.as_str();
    let res = Response::new().add_attribute(
        String::from_str("method"),
        String::from_str("instantiate"),
    ).add_attribute(String::from_str("owner"), String::from_str(owner_text));
    (State { owner: info.sender }, res)
}

/// The owner transition: only the current owner may hand the contract to a
/// new owner; every other caller is refused with `Unauthorized` and the
/// state stands unchanged.
pub fn try_change_owner(state: State, info: MessageInfo, new_owner: Addr) -> (r: Result<
    (State, Response<StructUmeeMsg>),
    ContractError,
>)
    ensures
        r is Ok <==> info.sender@ == state.owner@,
        r matches Ok(p) ==> p.0.owner@ == new_owner@ && p.1.messages@.len() == 0
            && p.1.attributes@.len() == 1 && p.1.attributes@[0].key@ == "method"@
            && p.1.attributes@[0].value@ == "change_owner"@,
        r matches Err(e) ==> e == ContractError::Unauthorized,
{
    let sender = info.sender.as_str();
    let owner = state.owner.as_str();
    if !crate::wire::str_eq(sender, owner) {
        return Err(ContractError::Unauthorized);
    }
    let res = Response::new().add_attribute(
        String::from_str("method"),
        String::from_str("change_owner"),
    );
    Ok((State { owner: new_owner }, res))
}

/// Routes one execution message: an owner transfer goes through the owner
/// transition; a module-group message leaves the state untouched and emits
/// exactly the envelope its kind's builder yields.
pub fn execute(state: State, info: MessageInfo, msg: ExecuteMsg) -> (r: Result<
    (State, Response<StructUmeeMsg>),
    ContractError,
>)
    ensures
        msg matches ExecuteMsg::ChangeOwner { new_owner } ==> {
            &&& r is Ok <==> info.sender@ == state.owner@
            &&& (r matches Ok(p) ==> p.0.owner@ == new_owner@)
            &&& (r matches Err(e) ==> e == ContractError::Unauthorized)
        },
        msg matches ExecuteMsg::Umee(u) ==> (u matches UmeeMsg::Leverage(m) ==> r is Ok && (
        r matches Ok(p) ==> p.0 == state && leverage_msg_dispatched(m, p.1))),
        msg matches ExecuteMsg::Supply(p) ==> r is Ok && (r matches Ok(pr) ==> pr.0 == state
            && leverage_msg_dispatched(UmeeMsgLeverage::Supply(p), pr.1)),
{
    match msg {
        ExecuteMsg::ChangeOwner { new_owner } => try_change_owner(state, info, new_owner),
        ExecuteMsg::Umee(UmeeMsg::Leverage(leverage_msg)) => {
            match execute_leverage(leverage_msg) {
                Ok(res) => Ok((state, res)),
                Err(e) => Err(e),
            }
        },
        ExecuteMsg::Supply(supply_params) => {
            match StructUmeeMsg::supply(supply_params) {
                Ok(res) => Ok((state, res)),
                Err(e) => Err(e),
            }
        },
    }
}

/// Routes one leverage message to its envelope builder: the response emits
/// exactly the matching kind's envelope, named by its method attribute.
pub fn execute_leverage(msg: UmeeMsgLeverage) -> (r: Result<Response<StructUmeeMsg>, ContractError>)
    ensures
        r is Ok,
        r matches Ok(res) ==> leverage_msg_dispatched(msg, res),
{
    match msg {
        UmeeMsgLeverage::Supply(p) => StructUmeeMsg::supply(p),
        UmeeMsgLeverage::Withdraw(p) => StructUmeeMsg::withdraw(p),
        UmeeMsgLeverage::MaxWithDraw(p) => StructUmeeMsg::max_withdraw(p),
        UmeeMsgLeverage::Collateralize(p) => StructUmeeMsg::collateralize(p),
        UmeeMsgLeverage::Decollateralize(p) => StructUmeeMsg::decollateralize(p),
        UmeeMsgLeverage::Borrow(p) => StructUmeeMsg::borrow(p),
        UmeeMsgLeverage::MaxBorrow(p) => StructUmeeMsg::max_borrow(p),
        UmeeMsgLeverage::Repay(p) => StructUmeeMsg::repay(p),
        UmeeMsgLeverage::Liquidate(p) => StructUmeeMsg::liquidate(p),
        UmeeMsgLeverage::SupplyCollateral(p) => StructUmeeMsg::supply_collateral(p),
    }
}

// ---------------------------------------------------------------------------
// Query routing
// ---------------------------------------------------------------------------

/// Returns the current owner.
pub fn query_owner(state: &State) -> (r: OwnerResponse)
    ensures
        r.owner@ == state.owner@,
{
    let text = String::from_str(state.owner.as_str());
    OwnerResponse { owner: Addr::unchecked(text) }
}

/// How a routed query of the leverage module group relates each kind to its own
/// request shape and response type.
pub open spec fn leverage_routed<F: Fn(String) -> HostResult>(
    host: F,
    msg: UmeeQueryLeverage,
    r: Result<String, BridgeError>,
) -> bool {
    &&& (msg matches UmeeQueryLeverage::LeverageParameters(p) ==> spec_routed::<LeverageParametersResponse, F>(
        host,
        custom_request("leverage_parameters"@, p.jval()),
        r,
    ))
    &&& (msg matches UmeeQueryLeverage::RegisteredTokens(p) ==> spec_routed::<RegisteredTokensResponse, F>(
        host,
        custom_request("registered_tokens"@, p.jval()),
        r,
    ))
    &&& (msg matches UmeeQueryLeverage::MarketSummary(p) ==> spec_routed::<MarketSummaryResponse, F>(
        host,
        custom_request("market_summary"@, p.jval()),
        r,
    ))
    &&& (msg matches UmeeQueryLeverage::AccountBalances(p) ==> spec_routed::<AccountBalancesResponse, F>(
        host,
        custom_request("account_balances"@, p.jval()),
        r,
    ))
    &&& (msg matches UmeeQueryLeverage::AccountSummary(p) ==> spec_routed::<AccountSummaryResponse, F>(
        host,
        custom_request("account_summary"@, p.jval()),
        r,
    ))
    &&& (msg matches UmeeQueryLeverage::LiquidationTargets(p) ==> spec_routed::<LiquidationTargetsResponse, F>(
        host,
        custom_request("liquidation_targets"@, p.jval()),
        r,
    ))
    &&& (msg matches UmeeQueryLeverage::BadDebts(p) ==> spec_routed::<BadDebtsResponse, F>(
        host,
        custom_request("bad_debts_params"@, p.jval()),
        r,
    ))
    &&& (msg matches UmeeQueryLeverage::MaxWithdraw(p) ==> spec_routed::<MaxWithdrawResponse, F>(
        host,
        custom_request("max_withdraw_params"@, p.jval()),
        r,
    ))
}

/// How a routed query of the oracle module group relates each kind to its own
/// request shape and response type.
pub open spec fn oracle_routed<F: Fn(String) -> HostResult>(
    host: F,
    msg: UmeeQueryOracle,
    r: Result<String, BridgeError>,
) -> bool {
    &&& (msg matches UmeeQueryOracle::ExchangeRates(p) ==> spec_routed::<ExchangeRatesResponse, F>(
        host,
        custom_request("exchange_rates"@, p.jval()),
        r,
    ))
    &&& (msg matches UmeeQueryOracle::ActiveExchangeRates(p) ==> spec_routed::<ActiveExchangeRatesResponse, F>(
        host,
        custom_request("active_exchange_rates"@, p.jval()),
        r,
    ))
    &&& (msg matches UmeeQueryOracle::FeederDelegation(p) ==> spec_routed::<FeederDelegationResponse, F>(
        host,
        custom_request("feeder_delegation"@, p.jval()),
        r,
    ))
    &&& (msg matches UmeeQueryOracle::MissCounter(p) ==> spec_routed::<MissCounterResponse, F>(
        host,
        custom_request("miss_counter"@, p.jval()),
        r,
    ))
    &&& (msg matches UmeeQueryOracle::SlashWindow(p) ==> spec_routed::<SlashWindowResponse, F>(
        host,
        custom_request("slash_window"@, p.jval()),
        r,
    ))
    &&& (msg matches UmeeQueryOracle::AggregatePrevote(p) ==> spec_routed::<AggregatePrevoteResponse, F>(
        host,
        custom_request("aggregate_prevote"@, p.jval()),
        r,
    ))
    &&& (msg matches UmeeQueryOracle::AggregatePrevotes(p) ==> spec_routed::<AggregatePrevotesResponse, F>(
        host,
        custom_request("aggregate_prevotes"@, p.jval()),
        r,
    ))
    &&& (msg matches UmeeQueryOracle::AggregateVote(p) ==> spec_routed::<AggregateVoteResponse, F>(
        host,
        custom_request("aggregate_vote"@, p.jval()),
        r,
    ))
    &&& (msg matches UmeeQueryOracle::AggregateVotes(p) ==> spec_routed::<AggregateVotesResponse, F>(
        host,
        custom_request("aggregate_votes"@, p.jval()),
        r,
    ))
    &&& (msg matches UmeeQueryOracle::OracleParameters(p) ==> spec_routed::<OracleParametersResponse, F>(
        host,
        custom_request("oracle_params"@, p.jval()),
        r,
    ))
    &&& (msg matches UmeeQueryOracle::Medians(p) ==> spec_routed::<MediansParamsResponse, F>(
        host,
        custom_request("medians_params"@, p.jval()),
        r,
    ))
    &&& (msg matches UmeeQueryOracle::MedianDeviations(p) ==> spec_routed::<MedianDeviationsParamsResponse, F>(
        host,
        custom_request("median_deviations_params"@, p.jval()),
        r,
    ))
}

/// How a routed query of the incentive module group relates each kind to its own
/// request shape and response type.
pub open spec fn incentive_routed<F: Fn(String) -> HostResult>(
    host: F,
    msg: UmeeQueryIncentive,
    r: Result<String, BridgeError>,
) -> bool {
    &&& (msg matches UmeeQueryIncentive::IncentiveParameters(p) ==> spec_routed::<IncentiveParametersResponse, F>(
        host,
        custom_request("incentive_parameters"@, p.jval()),
        r,
    ))
    &&& (msg matches UmeeQueryIncentive::TotalBonded(p) ==> spec_routed::<TotalBondedResponse, F>(
        host,
        custom_request("total_bonded"@, p.jval()),
        r,
    ))
    &&& (msg matches UmeeQueryIncentive::TotalUnbonding(p) ==> spec_routed::<TotalUnbondingResponse, F>(
        host,
        custom_request("total_unbonding"@, p.jval()),
        r,
    ))
    &&& (msg matches UmeeQueryIncentive::AccountBonds(p) ==> spec_routed::<AccountBondsResponse, F>(
        host,
        custom_request("account_bonds"@, p.jval()),
        r,
    ))
    &&& (msg matches UmeeQueryIncentive::PendingRewards(p) ==> spec_routed::<PendingRewardsResponse, F>(
        host,
        custom_request("pending_rewards"@, p.jval()),
        r,
    ))
    &&& (msg matches UmeeQueryIncentive::CompletedIncentivePrograms(p) ==> spec_routed::<CompletedIncentiveProgramsResponse, F>(
        host,
        custom_request("completed_incentive_programs"@, p.jval()),
        r,
    ))
    &&& (msg matches UmeeQueryIncentive::OngoingIncentivePrograms(p) ==> spec_routed::<OngoingIncentiveProgramsResponse, F>(
        host,
        custom_request("ongoing_incentive_programs"@, p.jval()),
        r,
    ))
    &&& (msg matches UmeeQueryIncentive::UpcomingIncentivePrograms(p) ==> spec_routed::<UpcomingIncentiveProgramsResponse, F>(
        host,
        custom_request("upcoming_incentive_programs"@, p.jval()),
        r,
    ))
    &&& (msg matches UmeeQueryIncentive::IncentiveProgram(p) ==> spec_routed::<IncentiveProgramResponse, F>(
        host,
        custom_request("incentive_program"@, p.jval()),
        r,
    ))
    &&& (msg matches UmeeQueryIncentive::CurrentRates(p) ==> spec_routed::<CurrentRatesResponse, F>(
        host,
        custom_request("current_rates"@, p.jval()),
        r,
    ))
    &&& (msg matches UmeeQueryIncentive::ActualRates(p) ==> spec_routed::<ActualRatesResponse, F>(
        host,
        custom_request("actual_rates"@, p.jval()),
        r,
    ))
    &&& (msg matches UmeeQueryIncentive::LastRewardTime(p) ==> spec_routed::<LastRewardTimeResponse, F>(
        host,
        custom_request("last_reward_time"@, p.jval()),
        r,
    ))
}

/// How a routed query of the metoken module group relates each kind to its own
/// request shape and response type.
pub open spec fn metoken_routed<F: Fn(String) -> HostResult>(
    host: F,
    msg: UmeeQueryMeToken,
    r: Result<String, BridgeError>,
) -> bool {
    &&& (msg matches UmeeQueryMeToken::MetokenParameters(p) ==> spec_routed::<MetokenParametersResponse, F>(
        host,
        custom_request("metoken_parameters"@, p.jval()),
        r,
    ))
    &&& (msg matches UmeeQueryMeToken::MetokenIndexes(p) ==> spec_routed::<MetokenIndexesResponse, F>(
        host,
        custom_request("metoken_indexes"@, p.jval()),
        r,
    ))
    &&& (msg matches UmeeQueryMeToken::MetokenSwapfee(p) ==> spec_routed::<MetokenSwapfeeResponse, F>(
        host,
        custom_request("metoken_swapfee"@, p.jval()),
        r,
    ))
    &&& (msg matches UmeeQueryMeToken::MetokenRedeemfee(p) ==> spec_routed::<MetokenRedeemfeeResponse, F>(
        host,
        custom_request("metoken_redeemfee"@, p.jval()),
        r,
    ))
    &&& (msg matches UmeeQueryMeToken::MetokenIndexbalances(p) ==> spec_routed::<MetokenIndexbalancesResponse, F>(
        host,
        custom_request("metoken_indexbalances"@, p.jval()),
        r,
    ))
    &&& (msg matches UmeeQueryMeToken::MetokenIndexPrices(p) ==> spec_routed::<MetokenIndexPricesResponse, F>(
        host,
        custom_request("metoken_indexprice"@, p.jval()),
        r,
    ))
}

/// How a routed module-group query relates to its group handler's
/// contract.
pub open spec fn umee_routed<F: Fn(String) -> HostResult>(
    host: F,
    msg: UmeeQuery,
    r: Result<String, BridgeError>,
) -> bool {
    &&& (msg matches UmeeQuery::Leverage(l) ==> leverage_routed(host, l, r))
    &&& (msg matches UmeeQuery::Oracle(o) ==> oracle_routed(host, o, r))
    &&& (msg matches UmeeQuery::Incentive(i) ==> incentive_routed(host, i, r))
    &&& (msg matches UmeeQuery::Metoken(m) ==> metoken_routed(host, m, r))
}

/// Routes one query: the owner query reads the state; a passthrough
/// request crosses the host boundary verbatim; everything else is routed to
/// its typed handler and comes back as the canonical wire text of the typed
/// response.
pub fn query<F: Fn(String) -> HostResult>(
    state: &State,
    host: &F,
    msg: QueryMsg,
) -> (r: Result<String, BridgeError>)
    requires
        forall|s: String| call_requires(*host, (s,)),
    ensures
        msg is GetOwner ==> (r matches Ok(s) && s@ == jenc(
            (OwnerResponse { owner: state.owner }).jval(),
        )),
        msg matches QueryMsg::Chain(req) ==> spec_passthrough(*host, req.jval(), r),
        msg matches QueryMsg::Umee(q) ==> umee_routed(*host, *q, r),
        msg matches QueryMsg::ExchangeRates(p) ==> spec_routed::<ExchangeRatesResponse, F>(
            *host,
            custom_request("exchange_rates"@, p.jval()),
            r,
        ),
        msg matches QueryMsg::RegisteredTokens(p) ==> spec_routed::<RegisteredTokensResponse, F>(
            *host,
            custom_request("registered_tokens"@, p.jval()),
            r,
        ),
        msg matches QueryMsg::LeverageParameters(p) ==> spec_routed::<
            LeverageParametersResponse,
            F,
        >(*host, custom_request("leverage_parameters"@, p.jval()), r),
        r matches Err(e) ==> !(e matches BridgeError::Encode { .. }),
{
    match msg {
        QueryMsg::GetOwner {} => {
            let resp = query_owner(state);
            let out = encode_wire(&resp);
            proof {
                assert(resp.jval() =~~= (OwnerResponse { owner: state.owner }).jval());
            }
            Ok(out)
        },
        QueryMsg::Chain(request) => {
            let chained = query_chain(host, &request);
            match chained {
                Err(e) => {
                    proof {
                        let (w, o) = choose|w: String, o: HostResult|
                            {
                                &&& w@ == jenc(request.jval())
                                &&& #[trigger] call_ensures(*host, (w,), o)
                                &&& Err::<Vec<u8>, BridgeError>(e) == spec_classify(o)
                            };
                        assert(call_ensures(*host, (w,), o) && w@ == jenc(request.jval())
                            && match spec_classify(o) {
                            Err(e2) => Err::<String, BridgeError>(e) == Err::<
                                String,
                                BridgeError,
                            >(e2),
                            Ok(_) => false,
                        });
                    }
                    Err(e)
                },
                Ok(data) => {
                    let ghost gdata = data;
                    let texted = bytes_to_text(data);
                    proof {
                        let (w, o) = choose|w: String, o: HostResult|
                            {
                                &&& w@ == jenc(request.jval())
                                &&& #[trigger] call_ensures(*host, (w,), o)
                                &&& Ok::<Vec<u8>, BridgeError>(gdata) == spec_classify(o)
                            };
                        assert(call_ensures(*host, (w,), o));
                    }
                    match texted {
                        Some(text) => Ok(text),
                        None => Err(BridgeError::Decode { detail: String::from_str("response bytes are not text") }),
                    }
                },
            }
        },
        QueryMsg::Umee(umee_query) => query_umee(host, *umee_query),
        QueryMsg::ExchangeRates(p) => {
            let tr = query_exchange_rates(host, p);
            match tr {
                Ok(resp) => {
                    let out = encode_wire(&resp);
                    proof {
                        assert(spec_bridged::<ExchangeRatesResponse, F>(
                            *host,
                            custom_request("exchange_rates"@, p.jval()),
                            tr,
                        ));
                    }
                    Ok(out)
                },
                Err(e) => {
                    proof {
                        assert(spec_bridged::<ExchangeRatesResponse, F>(
                            *host,
                            custom_request("exchange_rates"@, p.jval()),
                            tr,
                        ));
                    }
                    Err(e)
                },
            }
        },
        QueryMsg::RegisteredTokens(p) => {
            let tr = query_registered_tokens(host, p);
            match tr {
                Ok(resp) => {
                    let out = encode_wire(&resp);
                    proof {
                        assert(spec_bridged::<RegisteredTokensResponse, F>(
                            *host,
                            custom_request("registered_tokens"@, p.jval()),
                            tr,
                        ));
                    }
                    Ok(out)
                },
                Err(e) => {
                    proof {
                        assert(spec_bridged::<RegisteredTokensResponse, F>(
                            *host,
                            custom_request("registered_tokens"@, p.jval()),
                            tr,
                        ));
                    }
                    Err(e)
                },
            }
        },
        QueryMsg::LeverageParameters(p) => {
            let tr = query_leverage_parameters(host, p);
            match tr {
                Ok(resp) => {
                    let out = encode_wire(&resp);
                    proof {
                        assert(spec_bridged::<LeverageParametersResponse, F>(
                            *host,
                            custom_request("leverage_parameters"@, p.jval()),
                            tr,
                        ));
                    }
                    Ok(out)
                },
                Err(e) => {
                    proof {
                        assert(spec_bridged::<LeverageParametersResponse, F>(
                            *host,
                            custom_request("leverage_parameters"@, p.jval()),
                            tr,
                        ));
                    }
                    Err(e)
                },
            }
        },
    }
}

/// Routes a module-group query to its group handler.
pub fn query_umee<F: Fn(String) -> HostResult>(
    host: &F,
    msg: UmeeQuery,
) -> (r: Result<String, BridgeError>)
    requires
        forall|s: String| call_requires(*host, (s,)),
    ensures
        umee_routed(*host, msg, r),
        r matches Err(e) ==> !(e matches BridgeError::Encode { .. }),
{
    match msg {
        UmeeQuery::Leverage(leverage) => query_leverage(host, leverage),
        UmeeQuery::Oracle(oracle) => query_oracle(host, oracle),
        UmeeQuery::Incentive(incentive) => query_incentive(host, incentive),
        UmeeQuery::Metoken(metoken) => query_metoken(host, metoken),
    }
}

/// Routes a query of the leverage module group to its typed handler and returns
/// the canonical wire text of the typed response.
pub fn query_leverage<F: Fn(String) -> HostResult>(
    host: &F,
    msg: UmeeQueryLeverage,
) -> (r: Result<String, BridgeError>)
    requires
        forall|s: String| call_requires(*host, (s,)),
    ensures
        leverage_routed(*host, msg, r),
        r matches Err(e) ==> !(e matches BridgeError::Encode { .. }),
{
    match msg {
        UmeeQueryLeverage::LeverageParameters(p) => {
            let tr = query_leverage_parameters(host, p);
            match tr {
                Ok(resp) => {
                    let out = encode_wire(&resp);
                    proof {
                        assert(spec_bridged::<LeverageParametersResponse, F>(
                            *host,
                            custom_request("leverage_parameters"@, p.jval()),
                            tr,
                        ));
                    }
                    Ok(out)
                },
                Err(e) => {
                    proof {
                        assert(spec_bridged::<LeverageParametersResponse, F>(
                            *host,
                            custom_request("leverage_parameters"@, p.jval()),
                            tr,
                        ));
                    }
                    Err(e)
                },
            }
        },
        UmeeQueryLeverage::RegisteredTokens(p) => {
            let tr = query_registered_tokens(host, p);
            match tr {
                Ok(resp) => {
                    let out = encode_wire(&resp);
                    proof {
                        assert(spec_bridged::<RegisteredTokensResponse, F>(
                            *host,
                            custom_request("registered_tokens"@, p.jval()),
                            tr,
                        ));
                    }
                    Ok(out)
                },
                Err(e) => {
                    proof {
                        assert(spec_bridged::<RegisteredTokensResponse, F>(
                            *host,
                            custom_request("registered_tokens"@, p.jval()),
                            tr,
                        ));
                    }
                    Err(e)
                },
            }
        },
        UmeeQueryLeverage::MarketSummary(p) => {
            let tr = query_market_summary(host, p);
            match tr {
                Ok(resp) => {
                    let out = encode_wire(&resp);
                    proof {
                        assert(spec_bridged::<MarketSummaryResponse, F>(
                            *host,
                            custom_request("market_summary"@, p.jval()),
                            tr,
                        ));
                    }
                    Ok(out)
                },
                Err(e) => {
                    proof {
                        assert(spec_bridged::<MarketSummaryResponse, F>(
                            *host,
                            custom_request("market_summary"@, p.jval()),
                            tr,
                        ));
                    }
                    Err(e)
                },
            }
        },
        UmeeQueryLeverage::AccountBalances(p) => {
            let tr = query_account_balances(host, p);
            match tr {
                Ok(resp) => {
                    let out = encode_wire(&resp);
                    proof {
                        assert(spec_bridged::<AccountBalancesResponse, F>(
                            *host,
                            custom_request("account_balances"@, p.jval()),
                            tr,
                        ));
                    }
                    Ok(out)
                },
                Err(e) => {
                    proof {
                        assert(spec_bridged::<AccountBalancesResponse, F>(
                            *host,
                            custom_request("account_balances"@, p.jval()),
                            tr,
                        ));
                    }
                    Err(e)
                },
            }
        },
        UmeeQueryLeverage::AccountSummary(p) => {
            let tr = query_account_summary(host, p);
            match tr {
                Ok(resp) => {
                    let out = encode_wire(&resp);
                    proof {
                        assert(spec_bridged::<AccountSummaryResponse, F>(
                            *host,
                            custom_request("account_summary"@, p.jval()),
                            tr,
                        ));
                    }
                    Ok(out)
                },
                Err(e) => {
                    proof {
                        assert(spec_bridged::<AccountSummaryResponse, F>(
                            *host,
                            custom_request("account_summary"@, p.jval()),
                            tr,
                        ));
                    }
                    Err(e)
                },
            }
        },
        UmeeQueryLeverage::LiquidationTargets(p) => {
            let tr = query_liquidation_targets(host, p);
            match tr {
                Ok(resp) => {
                    let out = encode_wire(&resp);
                    proof {
                        assert(spec_bridged::<LiquidationTargetsResponse, F>(
                            *host,
                            custom_request("liquidation_targets"@, p.jval()),
                            tr,
                        ));
                    }
                    Ok(out)
                },
                Err(e) => {
                    proof {
                        assert(spec_bridged::<LiquidationTargetsResponse, F>(
                            *host,
                            custom_request("liquidation_targets"@, p.jval()),
                            tr,
                        ));
                    }
                    Err(e)
                },
            }
        },
        UmeeQueryLeverage::BadDebts(p) => {
            let tr = query_bad_debts(host, p);
            match tr {
                Ok(resp) => {
                    let out = encode_wire(&resp);
                    proof {
                        assert(spec_bridged::<BadDebtsResponse, F>(
                            *host,
                            custom_request("bad_debts_params"@, p.jval()),
                            tr,
                        ));
                    }
                    Ok(out)
                },
                Err(e) => {
                    proof {
                        assert(spec_bridged::<BadDebtsResponse, F>(
                            *host,
                            custom_request("bad_debts_params"@, p.jval()),
                            tr,
                        ));
                    }
                    Err(e)
                },
            }
        },
        UmeeQueryLeverage::MaxWithdraw(p) => {
            let tr = query_max_withdraw(host, p);
            match tr {
                Ok(resp) => {
                    let out = encode_wire(&resp);
                    proof {
                        assert(spec_bridged::<MaxWithdrawResponse, F>(
                            *host,
                            custom_request("max_withdraw_params"@, p.jval()),
                            tr,
                        ));
                    }
                    Ok(out)
                },
                Err(e) => {
                    proof {
                        assert(spec_bridged::<MaxWithdrawResponse, F>(
                            *host,
                            custom_request("max_withdraw_params"@, p.jval()),
                            tr,
                        ));
                    }
                    Err(e)
                },
            }
        },
    }
}

/// Routes a query of the oracle module group to its typed handler and returns
/// the canonical wire text of the typed response.
pub fn query_oracle<F: Fn(String) -> HostResult>(
    host: &F,
    msg: UmeeQueryOracle,
) -> (r: Result<String, BridgeError>)
    requires
        forall|s: String| call_requires(*host, (s,)),
    ensures
        oracle_routed(*host, msg, r),
        r matches Err(e) ==> !(e matches BridgeError::Encode { .. }),
{
    match msg {
        UmeeQueryOracle::ExchangeRates(p) => {
            let tr = query_exchange_rates(host, p);
            match tr {
                Ok(resp) => {
                    let out = encode_wire(&resp);
                    proof {
                        assert(spec_bridged::<ExchangeRatesResponse, F>(
                            *host,
                            custom_request("exchange_rates"@, p.jval()),
                            tr,
                        ));
                    }
                    Ok(out)
                },
                Err(e) => {
                    proof {
                        assert(spec_bridged::<ExchangeRatesResponse, F>(
                            *host,
                            custom_request("exchange_rates"@, p.jval()),
                            tr,
                        ));
                    }
                    Err(e)
                },
            }
        },
        UmeeQueryOracle::ActiveExchangeRates(p) => {
            let tr = query_active_exchange_rates(host, p);
            match tr {
                Ok(resp) => {
                    let out = encode_wire(&resp);
                    proof {
                        assert(spec_bridged::<ActiveExchangeRatesResponse, F>(
                            *host,
                            custom_request("active_exchange_rates"@, p.jval()),
                            tr,
                        ));
                    }
                    Ok(out)
                },
                Err(e) => {
                    proof {
                        assert(spec_bridged::<ActiveExchangeRatesResponse, F>(
                            *host,
                            custom_request("active_exchange_rates"@, p.jval()),
                            tr,
                        ));
                    }
                    Err(e)
                },
            }
        },
        UmeeQueryOracle::FeederDelegation(p) => {
            let tr = query_feeder_delegation(host, p);
            match tr {
                Ok(resp) => {
                    let out = encode_wire(&resp);
                    proof {
                        assert(spec_bridged::<FeederDelegationResponse, F>(
                            *host,
                            custom_request("feeder_delegation"@, p.jval()),
                            tr,
                        ));
                    }
                    Ok(out)
                },
                Err(e) => {
                    proof {
                        assert(spec_bridged::<FeederDelegationResponse, F>(
                            *host,
                            custom_request("feeder_delegation"@, p.jval()),
                            tr,
                        ));
                    }
                    Err(e)
                },
            }
        },
        UmeeQueryOracle::MissCounter(p) => {
            let tr = query_miss_counter(host, p);
            match tr {
                Ok(resp) => {
                    let out = encode_wire(&resp);
                    proof {
                        assert(spec_bridged::<MissCounterResponse, F>(
                            *host,
                            custom_request("miss_counter"@, p.jval()),
                            tr,
                        ));
                    }
                    Ok(out)
                },
                Err(e) => {
                    proof {
                        assert(spec_bridged::<MissCounterResponse, F>(
                            *host,
                            custom_request("miss_counter"@, p.jval()),
                            tr,
                        ));
                    }
                    Err(e)
                },
            }
        },
        UmeeQueryOracle::SlashWindow(p) => {
            let tr = query_slash_window(host, p);
            match tr {
                Ok(resp) => {
                    let out = encode_wire(&resp);
                    proof {
                        assert(spec_bridged::<SlashWindowResponse, F>(
                            *host,
                            custom_request("slash_window"@, p.jval()),
                            tr,
                        ));
                    }
                    Ok(out)
                },
                Err(e) => {
                    proof {
                        assert(spec_bridged::<SlashWindowResponse, F>(
                            *host,
                            custom_request("slash_window"@, p.jval()),
                            tr,
                        ));
                    }
                    Err(e)
                },
            }
        },
        UmeeQueryOracle::AggregatePrevote(p) => {
            let tr = query_aggregate_prevote(host, p);
            match tr {
                Ok(resp) => {
                    let out = encode_wire(&resp);
                    proof {
                        assert(spec_bridged::<AggregatePrevoteResponse, F>(
                            *host,
                            custom_request("aggregate_prevote"@, p.jval()),
                            tr,
                        ));
                    }
                    Ok(out)
                },
                Err(e) => {
                    proof {
                        assert(spec_bridged::<AggregatePrevoteResponse, F>(
                            *host,
                            custom_request("aggregate_prevote"@, p.jval()),
                            tr,
                        ));
                    }
                    Err(e)
                },
            }
        },
        UmeeQueryOracle::AggregatePrevotes(p) => {
            let tr = query_aggregate_prevotes(host, p);
            match tr {
                Ok(resp) => {
                    let out = encode_wire(&resp);
                    proof {
                        assert(spec_bridged::<AggregatePrevotesResponse, F>(
                            *host,
                            custom_request("aggregate_prevotes"@, p.jval()),
                            tr,
                        ));
                    }
                    Ok(out)
                },
                Err(e) => {
                    proof {
                        assert(spec_bridged::<AggregatePrevotesResponse, F>(
                            *host,
                            custom_request("aggregate_prevotes"@, p.jval()),
                            tr,
                        ));
                    }
                    Err(e)
                },
            }
        },
        UmeeQueryOracle::AggregateVote(p) => {
            let tr = query_aggregate_vote(host, p);
            match tr {
                Ok(resp) => {
                    let out = encode_wire(&resp);
                    proof {
                        assert(spec_bridged::<AggregateVoteResponse, F>(
                            *host,
                            custom_request("aggregate_vote"@, p.jval()),
                            tr,
                        ));
                    }
                    Ok(out)
                },
                Err(e) => {
                    proof {
                        assert(spec_bridged::<AggregateVoteResponse, F>(
                            *host,
                            custom_request("aggregate_vote"@, p.jval()),
                            tr,
                        ));
                    }
                    Err(e)
                },
            }
        },
        UmeeQueryOracle::AggregateVotes(p) => {
            let tr = query_aggregate_votes(host, p);
            match tr {
                Ok(resp) => {
                    let out = encode_wire(&resp);
                    proof {
                        assert(spec_bridged::<AggregateVotesResponse, F>(
                            *host,
                            custom_request("aggregate_votes"@, p.jval()),
                            tr,
                        ));
                    }
                    Ok(out)
                },
                Err(e) => {
                    proof {
                        assert(spec_bridged::<AggregateVotesResponse, F>(
                            *host,
                            custom_request("aggregate_votes"@, p.jval()),
                            tr,
                        ));
                    }
                    Err(e)
                },
            }
        },
        UmeeQueryOracle::OracleParameters(p) => {
            let tr = query_oracle_parameters(host, p);
            match tr {
                Ok(resp) => {
                    let out = encode_wire(&resp);
                    proof {
                        assert(spec_bridged::<OracleParametersResponse, F>(
                            *host,
                            custom_request("oracle_params"@, p.jval()),
                            tr,
                        ));
                    }
                    Ok(out)
                },
                Err(e) => {
                    proof {
                        assert(spec_bridged::<OracleParametersResponse, F>(
                            *host,
                            custom_request("oracle_params"@, p.jval()),
                            tr,
                        ));
                    }
                    Err(e)
                },
            }
        },
        UmeeQueryOracle::Medians(p) => {
            let tr = query_medians(host, p);
            match tr {
                Ok(resp) => {
                    let out = encode_wire(&resp);
                    proof {
                        assert(spec_bridged::<MediansParamsResponse, F>(
                            *host,
                            custom_request("medians_params"@, p.jval()),
                            tr,
                        ));
                    }
                    Ok(out)
                },
                Err(e) => {
                    proof {
                        assert(spec_bridged::<MediansParamsResponse, F>(
                            *host,
                            custom_request("medians_params"@, p.jval()),
                            tr,
                        ));
                    }
                    Err(e)
                },
            }
        },
        UmeeQueryOracle::MedianDeviations(p) => {
            let tr = query_median_deviations(host, p);
            match tr {
                Ok(resp) => {
                    let out = encode_wire(&resp);
                    proof {
                        assert(spec_bridged::<MedianDeviationsParamsResponse, F>(
                            *host,
                            custom_request("median_deviations_params"@, p.jval()),
                            tr,
                        ));
                    }
                    Ok(out)
                },
                Err(e) => {
                    proof {
                        assert(spec_bridged::<MedianDeviationsParamsResponse, F>(
                            *host,
                            custom_request("median_deviations_params"@, p.jval()),
                            tr,
                        ));
                    }
                    Err(e)
                },
            }
        },
    }
}

/// Routes a query of the incentive module group to its typed handler and returns
/// the canonical wire text of the typed response.
pub fn query_incentive<F: Fn(String) -> HostResult>(
    host: &F,
    msg: UmeeQueryIncentive,
) -> (r: Result<String, BridgeError>)
    requires
        forall|s: String| call_requires(*host, (s,)),
    ensures
        incentive_routed(*host, msg, r),
        r matches Err(e) ==> !(e matches BridgeError::Encode { .. }),
{
    match msg {
        UmeeQueryIncentive::IncentiveParameters(p) => {
            let tr = query_incentive_params(host, p);
            match tr {
                Ok(resp) => {
                    let out = encode_wire(&resp);
                    proof {
                        assert(spec_bridged::<IncentiveParametersResponse, F>(
                            *host,
                            custom_request("incentive_parameters"@, p.jval()),
                            tr,
                        ));
                    }
                    Ok(out)
                },
                Err(e) => {
                    proof {
                        assert(spec_bridged::<IncentiveParametersResponse, F>(
                            *host,
                            custom_request("incentive_parameters"@, p.jval()),
                            tr,
                        ));
                    }
                    Err(e)
                },
            }
        },
        UmeeQueryIncentive::TotalBonded(p) => {
            let tr = query_total_bonded(host, p);
            match tr {
                Ok(resp) => {
                    let out = encode_wire(&resp);
                    proof {
                        assert(spec_bridged::<TotalBondedResponse, F>(
                            *host,
                            custom_request("total_bonded"@, p.jval()),
                            tr,
                        ));
                    }
                    Ok(out)
                },
                Err(e) => {
                    proof {
                        assert(spec_bridged::<TotalBondedResponse, F>(
                            *host,
                            custom_request("total_bonded"@, p.jval()),
                            tr,
                        ));
                    }
                    Err(e)
                },
            }
        },
        UmeeQueryIncentive::TotalUnbonding(p) => {
            let tr = query_total_unbonding(host, p);
            match tr {
                Ok(resp) => {
                    let out = encode_wire(&resp);
                    proof {
                        assert(spec_bridged::<TotalUnbondingResponse, F>(
                            *host,
                            custom_request("total_unbonding"@, p.jval()),
                            tr,
                        ));
                    }
                    Ok(out)
                },
                Err(e) => {
                    proof {
                        assert(spec_bridged::<TotalUnbondingResponse, F>(
                            *host,
                            custom_request("total_unbonding"@, p.jval()),
                            tr,
                        ));
                    }
                    Err(e)
                },
            }
        },
        UmeeQueryIncentive::AccountBonds(p) => {
            let tr = query_account_bonds(host, p);
            match tr {
                Ok(resp) => {
                    let out = encode_wire(&resp);
                    proof {
                        assert(spec_bridged::<AccountBondsResponse, F>(
                            *host,
                            custom_request("account_bonds"@, p.jval()),
                            tr,
                        ));
                    }
                    Ok(out)
                },
                Err(e) => {
                    proof {
                        assert(spec_bridged::<AccountBondsResponse, F>(
                            *host,
                            custom_request("account_bonds"@, p.jval()),
                            tr,
                        ));
                    }
                    Err(e)
                },
            }
        },
        UmeeQueryIncentive::PendingRewards(p) => {
            let tr = query_pending_rewards(host, p);
            match tr {
                Ok(resp) => {
                    let out = encode_wire(&resp);
                    proof {
                        assert(spec_bridged::<PendingRewardsResponse, F>(
                            *host,
                            custom_request("pending_rewards"@, p.jval()),
                            tr,
                        ));
                    }
                    Ok(out)
                },
                Err(e) => {
                    proof {
                        assert(spec_bridged::<PendingRewardsResponse, F>(
                            *host,
                            custom_request("pending_rewards"@, p.jval()),
                            tr,
                        ));
                    }
                    Err(e)
                },
            }
        },
        UmeeQueryIncentive::CompletedIncentivePrograms(p) => {
            let tr = query_completed_incentive_programs(host, p);
            match tr {
                Ok(resp) => {
                    let out = encode_wire(&resp);
                    proof {
                        assert(spec_bridged::<CompletedIncentiveProgramsResponse, F>(
                            *host,
                            custom_request("completed_incentive_programs"@, p.jval()),
                            tr,
                        ));
                    }
                    Ok(out)
                },
                Err(e) => {
                    proof {
                        assert(spec_bridged::<CompletedIncentiveProgramsResponse, F>(
                            *host,
                            custom_request("completed_incentive_programs"@, p.jval()),
                            tr,
                        ));
                    }
                    Err(e)
                },
            }
        },
        UmeeQueryIncentive::OngoingIncentivePrograms(p) => {
            let tr = query_ongoing_incentive_programs(host, p);
            match tr {
                Ok(resp) => {
                    let out = encode_wire(&resp);
                    proof {
                        assert(spec_bridged::<OngoingIncentiveProgramsResponse, F>(
                            *host,
                            custom_request("ongoing_incentive_programs"@, p.jval()),
                            tr,
                        ));
                    }
                    Ok(out)
                },
                Err(e) => {
                    proof {
                        assert(spec_bridged::<OngoingIncentiveProgramsResponse, F>(
                            *host,
                            custom_request("ongoing_incentive_programs"@, p.jval()),
                            tr,
                        ));
                    }
                    Err(e)
                },
            }
        },
        UmeeQueryIncentive::UpcomingIncentivePrograms(p) => {
            let tr = query_upcoming_incentive_programs(host, p);
            match tr {
                Ok(resp) => {
                    let out = encode_wire(&resp);
                    proof {
                        assert(spec_bridged::<UpcomingIncentiveProgramsResponse, F>(
                            *host,
                            custom_request("upcoming_incentive_programs"@, p.jval()),
                            tr,
                        ));
                    }
                    Ok(out)
                },
                Err(e) => {
                    proof {
                        assert(spec_bridged::<UpcomingIncentiveProgramsResponse, F>(
                            *host,
                            custom_request("upcoming_incentive_programs"@, p.jval()),
                            tr,
                        ));
                    }
                    Err(e)
                },
            }
        },
        UmeeQueryIncentive::IncentiveProgram(p) => {
            let tr = query_incentive_program(host, p);
            match tr {
                Ok(resp) => {
                    let out = encode_wire(&resp);
                    proof {
                        assert(spec_bridged::<IncentiveProgramResponse, F>(
                            *host,
                            custom_request("incentive_program"@, p.jval()),
                            tr,
                        ));
                    }
                    Ok(out)
                },
                Err(e) => {
                    proof {
                        assert(spec_bridged::<IncentiveProgramResponse, F>(
                            *host,
                            custom_request("incentive_program"@, p.jval()),
                            tr,
                        ));
                    }
                    Err(e)
                },
            }
        },
        UmeeQueryIncentive::CurrentRates(p) => {
            let tr = query_current_rates(host, p);
            match tr {
                Ok(resp) => {
                    let out = encode_wire(&resp);
                    proof {
                        assert(spec_bridged::<CurrentRatesResponse, F>(
                            *host,
                            custom_request("current_rates"@, p.jval()),
                            tr,
                        ));
                    }
                    Ok(out)
                },
                Err(e) => {
                    proof {
                        assert(spec_bridged::<CurrentRatesResponse, F>(
                            *host,
                            custom_request("current_rates"@, p.jval()),
                            tr,
                        ));
                    }
                    Err(e)
                },
            }
        },
        UmeeQueryIncentive::ActualRates(p) => {
            let tr = query_actutal_rates(host, p);
            match tr {
                Ok(resp) => {
                    let out = encode_wire(&resp);
                    proof {
                        assert(spec_bridged::<ActualRatesResponse, F>(
                            *host,
                            custom_request("actual_rates"@, p.jval()),
                            tr,
                        ));
                    }
                    Ok(out)
                },
                Err(e) => {
                    proof {
                        assert(spec_bridged::<ActualRatesResponse, F>(
                            *host,
                            custom_request("actual_rates"@, p.jval()),
                            tr,
                        ));
                    }
                    Err(e)
                },
            }
        },
        UmeeQueryIncentive::LastRewardTime(p) => {
            let tr = query_last_reward_time(host, p);
            match tr {
                Ok(resp) => {
                    let out = encode_wire(&resp);
                    proof {
                        assert(spec_bridged::<LastRewardTimeResponse, F>(
                            *host,
                            custom_request("last_reward_time"@, p.jval()),
                            tr,
                        ));
                    }
                    Ok(out)
                },
                Err(e) => {
                    proof {
                        assert(spec_bridged::<LastRewardTimeResponse, F>(
                            *host,
                            custom_request("last_reward_time"@, p.jval()),
                            tr,
                        ));
                    }
                    Err(e)
                },
            }
        },
    }
}

/// Routes a query of the metoken module group to its typed handler and returns
/// the canonical wire text of the typed response.
pub fn query_metoken<F: Fn(String) -> HostResult>(
    host: &F,
    msg: UmeeQueryMeToken,
) -> (r: Result<String, BridgeError>)
    requires
        forall|s: String| call_requires(*host, (s,)),
    ensures
        metoken_routed(*host, msg, r),
        r matches Err(e) ==> !(e matches BridgeError::Encode { .. }),
{
    match msg {
        UmeeQueryMeToken::MetokenParameters(p) => {
            let tr = query_metoken_params(host, p);
            match tr {
                Ok(resp) => {
                    let out = encode_wire(&resp);
                    proof {
                        assert(spec_bridged::<MetokenParametersResponse, F>(
                            *host,
                            custom_request("metoken_parameters"@, p.jval()),
                            tr,
                        ));
                    }
                    Ok(out)
                },
                Err(e) => {
                    proof {
                        assert(spec_bridged::<MetokenParametersResponse, F>(
                            *host,
                            custom_request("metoken_parameters"@, p.jval()),
                            tr,
                        ));
                    }
                    Err(e)
                },
            }
        },
        UmeeQueryMeToken::MetokenIndexes(p) => {
            let tr = query_metoken_indexes(host, p);
            match tr {
                Ok(resp) => {
                    let out = encode_wire(&resp);
                    proof {
                        assert(spec_bridged::<MetokenIndexesResponse, F>(
                            *host,
                            custom_request("metoken_indexes"@, p.jval()),
                            tr,
                        ));
                    }
                    Ok(out)
                },
                Err(e) => {
                    proof {
                        assert(spec_bridged::<MetokenIndexesResponse, F>(
                            *host,
                            custom_request("metoken_indexes"@, p.jval()),
                            tr,
                        ));
                    }
                    Err(e)
                },
            }
        },
        UmeeQueryMeToken::MetokenSwapfee(p) => {
            let tr = query_metoken_swapfee(host, p);
            match tr {
                Ok(resp) => {
                    let out = encode_wire(&resp);
                    proof {
                        assert(spec_bridged::<MetokenSwapfeeResponse, F>(
                            *host,
                            custom_request("metoken_swapfee"@, p.jval()),
                            tr,
                        ));
                    }
                    Ok(out)
                },
                Err(e) => {
                    proof {
                        assert(spec_bridged::<MetokenSwapfeeResponse, F>(
                            *host,
                            custom_request("metoken_swapfee"@, p.jval()),
                            tr,
                        ));
                    }
                    Err(e)
                },
            }
        },
        UmeeQueryMeToken::MetokenRedeemfee(p) => {
            let tr = query_metoken_redeemfee(host, p);
            match tr {
                Ok(resp) => {
                    let out = encode_wire(&resp);
                    proof {
                        assert(spec_bridged::<MetokenRedeemfeeResponse, F>(
                            *host,
                            custom_request("metoken_redeemfee"@, p.jval()),
                            tr,
                        ));
                    }
                    Ok(out)
                },
                Err(e) => {
                    proof {
                        assert(spec_bridged::<MetokenRedeemfeeResponse, F>(
                            *host,
                            custom_request("metoken_redeemfee"@, p.jval()),
                            tr,
                        ));
                    }
                    Err(e)
                },
            }
        },
        UmeeQueryMeToken::MetokenIndexbalances(p) => {
            let tr = query_metoken_indexbalances(host, p);
            match tr {
                Ok(resp) => {
                    let out = encode_wire(&resp);
                    proof {
                        assert(spec_bridged::<MetokenIndexbalancesResponse, F>(
                            *host,
                            custom_request("metoken_indexbalances"@, p.jval()),
                            tr,
                        ));
                    }
                    Ok(out)
                },
                Err(e) => {
                    proof {
                        assert(spec_bridged::<MetokenIndexbalancesResponse, F>(
                            *host,
                            custom_request("metoken_indexbalances"@, p.jval()),
                            tr,
                        ));
                    }
                    Err(e)
                },
            }
        },
        UmeeQueryMeToken::MetokenIndexPrices(p) => {
            let tr = query_metoken_indexprice(host, p);
            match tr {
                Ok(resp) => {
                    let out = encode_wire(&resp);
                    proof {
                        assert(spec_bridged::<MetokenIndexPricesResponse, F>(
                            *host,
                            custom_request("metoken_indexprice"@, p.jval()),
                            tr,
                        ));
                    }
                    Ok(out)
                },
                Err(e) => {
                    proof {
                        assert(spec_bridged::<MetokenIndexPricesResponse, F>(
                            *host,
                            custom_request("metoken_indexprice"@, p.jval()),
                            tr,
                        ));
                    }
                    Err(e)
                },
            }
        },
    }
}

/// Builds a `exchange_rates` request, carries it across the host boundary
/// once, and decodes the typed response; the result follows exactly from
/// the outcome the host returned to the request's canonical text.
pub fn query_exchange_rates<F: Fn(String) -> HostResult>(
    host: &F,
    params: ExchangeRatesParams,
) -> (r: Result<ExchangeRatesResponse, BridgeError>)
    requires
        forall|s: String| call_requires(*host, (s,)),
    ensures
        spec_bridged::<ExchangeRatesResponse, F>(*host, custom_request("exchange_rates"@, params.jval()), r),
        r matches Err(e) ==> !(e matches BridgeError::Encode { .. }),
        r matches Ok(x) ==> exists|s: Seq<char>| p_json(s, 0) == Some(
            (#[trigger] x.jval(), s.len() as int),
        ),
{
    let request = QueryRequest::Custom(StructUmeeQuery::exchange_rates(params));
    let ghost greq = custom_request("exchange_rates"@, params.jval());
    proof {
        assert(request.jval() =~~= greq);
    }
    let chained = query_chain(host, &request);
    match chained {
        Err(e) => {
            proof {
                let (w, o) = choose|w: String, o: HostResult|
                    {
                        &&& w@ == jenc(request.jval())
                        &&& #[trigger] call_ensures(*host, (w,), o)
                        &&& Err::<Vec<u8>, BridgeError>(e) == spec_classify(o)
                    };
                assert(spec_bridge_result::<ExchangeRatesResponse>(o, Err::<ExchangeRatesResponse, BridgeError>(e)));
                assert(call_ensures(*host, (w,), o) && w@ == jenc(greq));
            }
            Err(e)
        },
        Ok(data) => {
            let ghost gdata = data;
            let r2 = decode_response::<ExchangeRatesResponse>(data);
            proof {
                let (w, o) = choose|w: String, o: HostResult|
                    {
                        &&& w@ == jenc(request.jval())
                        &&& #[trigger] call_ensures(*host, (w,), o)
                        &&& Ok::<Vec<u8>, BridgeError>(gdata) == spec_classify(o)
                    };
                assert(spec_bridge_result::<ExchangeRatesResponse>(o, r2));
                assert(call_ensures(*host, (w,), o) && w@ == jenc(greq));
            }
            r2
        },
    }
}

/// Builds a `registered_tokens` request, carries it across the host boundary
/// once, and decodes the typed response; the result follows exactly from
/// the outcome the host returned to the request's canonical text.
pub fn query_registered_tokens<F: Fn(String) -> HostResult>(
    host: &F,
    params: RegisteredTokensParams,
) -> (r: Result<RegisteredTokensResponse, BridgeError>)
    requires
        forall|s: String| call_requires(*host, (s,)),
    ensures
        spec_bridged::<RegisteredTokensResponse, F>(*host, custom_request("registered_tokens"@, params.jval()), r),
        r matches Err(e) ==> !(e matches BridgeError::Encode { .. }),
        r matches Ok(x) ==> exists|s: Seq<char>| p_json(s, 0) == Some(
            (#[trigger] x.jval(), s.len() as int),
        ),
{
    let request = QueryRequest::Custom(StructUmeeQuery::registered_tokens(params));
    let ghost greq = custom_request("registered_tokens"@, params.jval());
    proof {
        assert(request.jval() =~~= greq);
    }
    let chained = query_chain(host, &request);
    match chained {
        Err(e) => {
            proof {
                let (w, o) = choose|w: String, o: HostResult|
                    {
                        &&& w@ == jenc(request.jval())
                        &&& #[trigger] call_ensures(*host, (w,), o)
                        &&& Err::<Vec<u8>, BridgeError>(e) == spec_classify(o)
                    };
                assert(spec_bridge_result::<RegisteredTokensResponse>(o, Err::<RegisteredTokensResponse, BridgeError>(e)));
                assert(call_ensures(*host, (w,), o) && w@ == jenc(greq));
            }
            Err(e)
        },
        Ok(data) => {
            let ghost gdata = data;
            let r2 = decode_response::<RegisteredTokensResponse>(data);
            proof {
                let (w, o) = choose|w: String, o: HostResult|
                    {
                        &&& w@ == jenc(request.jval())
                        &&& #[trigger] call_ensures(*host, (w,), o)
                        &&& Ok::<Vec<u8>, BridgeError>(gdata) == spec_classify(o)
                    };
                assert(spec_bridge_result::<RegisteredTokensResponse>(o, r2));
                assert(call_ensures(*host, (w,), o) && w@ == jenc(greq));
            }
            r2
        },
    }
}

/// Builds a `leverage_parameters` request, carries it across the host boundary
/// once, and decodes the typed response; the result follows exactly from
/// the outcome the host returned to the request's canonical text.
pub fn query_leverage_parameters<F: Fn(String) -> HostResult>(
    host: &F,
    params: LeverageParametersParams,
) -> (r: Result<LeverageParametersResponse, BridgeError>)
    requires
        forall|s: String| call_requires(*host, (s,)),
    ensures
        spec_bridged::<LeverageParametersResponse, F>(*host, custom_request("leverage_parameters"@, params.jval()), r),
        r matches Err(e) ==> !(e matches BridgeError::Encode { .. }),
        r matches Ok(x) ==> exists|s: Seq<char>| p_json(s, 0) == Some(
            (#[trigger] x.jval(), s.len() as int),
        ),
{
    let request = QueryRequest::Custom(StructUmeeQuery::leverage_parameters(params));
    let ghost greq = custom_request("leverage_parameters"@, params.jval());
    proof {
        assert(request.jval() =~~= greq);
    }
    let chained = query_chain(host, &request);
    match chained {
        Err(e) => {
            proof {
                let (w, o) = choose|w: String, o: HostResult|
                    {
                        &&& w@ == jenc(request.jval())
                        &&& #[trigger] call_ensures(*host, (w,), o)
                        &&& Err::<Vec<u8>, BridgeError>(e) == spec_classify(o)
                    };
                assert(spec_bridge_result::<LeverageParametersResponse>(o, Err::<LeverageParametersResponse, BridgeError>(e)));
                assert(call_ensures(*host, (w,), o) && w@ == jenc(greq));
            }
            Err(e)
        },
        Ok(data) => {
            let ghost gdata = data;
            let r2 = decode_response::<LeverageParametersResponse>(data);
            proof {
                let (w, o) = choose|w: String, o: HostResult|
                    {
                        &&& w@ == jenc(request.jval())
                        &&& #[trigger] call_ensures(*host, (w,), o)
                        &&& Ok::<Vec<u8>, BridgeError>(gdata) == spec_classify(o)
                    };
                assert(spec_bridge_result::<LeverageParametersResponse>(o, r2));
                assert(call_ensures(*host, (w,), o) && w@ == jenc(greq));
            }
            r2
        },
    }
}

/// Builds a `market_summary` request, carries it across the host boundary
/// once, and decodes the typed response; the result follows exactly from
/// the outcome the host returned to the request's canonical text.
pub fn query_market_summary<F: Fn(String) -> HostResult>(
    host: &F,
    params: MarketSummaryParams,
) -> (r: Result<MarketSummaryResponse, BridgeError>)
    requires
        forall|s: String| call_requires(*host, (s,)),
    ensures
        spec_bridged::<MarketSummaryResponse, F>(*host, custom_request("market_summary"@, params.jval()), r),
        r matches Err(e) ==> !(e matches BridgeError::Encode { .. }),
        r matches Ok(x) ==> exists|s: Seq<char>| p_json(s, 0) == Some(
            (#[trigger] x.jval(), s.len() as int),
        ),
{
    let request = QueryRequest::Custom(StructUmeeQuery::market_summary(params));
    let ghost greq = custom_request("market_summary"@, params.jval());
    proof {
        assert(request.jval() =~~= greq);
    }
    let chained = query_chain(host, &request);
    match chained {
        Err(e) => {
            proof {
                let (w, o) = choose|w: String, o: HostResult|
                    {
                        &&& w@ == jenc(request.jval())
                        &&& #[trigger] call_ensures(*host, (w,), o)
                        &&& Err::<Vec<u8>, BridgeError>(e) == spec_classify(o)
                    };
                assert(spec_bridge_result::<MarketSummaryResponse>(o, Err::<MarketSummaryResponse, BridgeError>(e)));
                assert(call_ensures(*host, (w,), o) && w@ == jenc(greq));
            }
            Err(e)
        },
        Ok(data) => {
            let ghost gdata = data;
            let r2 = decode_response::<MarketSummaryResponse>(data);
            proof {
                let (w, o) = choose|w: String, o: HostResult|
                    {
                        &&& w@ == jenc(request.jval())
                        &&& #[trigger] call_ensures(*host, (w,), o)
                        &&& Ok::<Vec<u8>, BridgeError>(gdata) == spec_classify(o)
                    };
                assert(spec_bridge_result::<MarketSummaryResponse>(o, r2));
                assert(call_ensures(*host, (w,), o) && w@ == jenc(greq));
            }
            r2
        },
    }
}

/// Builds a `account_balances` request, carries it across the host boundary
/// once, and decodes the typed response; the result follows exactly from
/// the outcome the host returned to the request's canonical text.
pub fn query_account_balances<F: Fn(String) -> HostResult>(
    host: &F,
    params: AccountBalancesParams,
) -> (r: Result<AccountBalancesResponse, BridgeError>)
    requires
        forall|s: String| call_requires(*host, (s,)),
    ensures
        spec_bridged::<AccountBalancesResponse, F>(*host, custom_request("account_balances"@, params.jval()), r),
        r matches Err(e) ==> !(e matches BridgeError::Encode { .. }),
        r matches Ok(x) ==> exists|s: Seq<char>| p_json(s, 0) == Some(
            (#[trigger] x.jval(), s.len() as int),
        ),
{
    let request = QueryRequest::Custom(StructUmeeQuery::account_balances(params));
    let ghost greq = custom_request("account_balances"@, params.jval());
    proof {
        assert(request.jval() =~~= greq);
    }
    let chained = query_chain(host, &request);
    match chained {
        Err(e) => {
            proof {
                let (w, o) = choose|w: String, o: HostResult|
                    {
                        &&& w@ == jenc(request.jval())
                        &&& #[trigger] call_ensures(*host, (w,), o)
                        &&& Err::<Vec<u8>, BridgeError>(e) == spec_classify(o)
                    };
                assert(spec_bridge_result::<AccountBalancesResponse>(o, Err::<AccountBalancesResponse, BridgeError>(e)));
                assert(call_ensures(*host, (w,), o) && w@ == jenc(greq));
            }
            Err(e)
        },
        Ok(data) => {
            let ghost gdata = data;
            let r2 = decode_response::<AccountBalancesResponse>(data);
            proof {
                let (w, o) = choose|w: String, o: HostResult|
                    {
                        &&& w@ == jenc(request.jval())
                        &&& #[trigger] call_ensures(*host, (w,), o)
                        &&& Ok::<Vec<u8>, BridgeError>(gdata) == spec_classify(o)
                    };
                assert(spec_bridge_result::<AccountBalancesResponse>(o, r2));
                assert(call_ensures(*host, (w,), o) && w@ == jenc(greq));
            }
            r2
        },
    }
}

/// Builds a `account_summary` request, carries it across the host boundary
/// once, and decodes the typed response; the result follows exactly from
/// the outcome the host returned to the request's canonical text.
pub fn query_account_summary<F: Fn(String) -> HostResult>(
    host: &F,
    params: AccountSummaryParams,
) -> (r: Result<AccountSummaryResponse, BridgeError>)
    requires
        forall|s: String| call_requires(*host, (s,)),
    ensures
        spec_bridged::<AccountSummaryResponse, F>(*host, custom_request("account_summary"@, params.jval()), r),
        r matches Err(e) ==> !(e matches BridgeError::Encode { .. }),
        r matches Ok(x) ==> exists|s: Seq<char>| p_json(s, 0) == Some(
            (#[trigger] x.jval(), s.len() as int),
        ),
{
    let request = QueryRequest::Custom(StructUmeeQuery::account_summary(params));
    let ghost greq = custom_request("account_summary"@, params.jval());
    proof {
        assert(request.jval() =~~= greq);
    }
    let chained = query_chain(host, &request);
    match chained {
        Err(e) => {
            proof {
                let (w, o) = choose|w: String, o: HostResult|
                    {
                        &&& w@ == jenc(request.jval())
                        &&& #[trigger] call_ensures(*host, (w,), o)
                        &&& Err::<Vec<u8>, BridgeError>(e) == spec_classify(o)
                    };
                assert(spec_bridge_result::<AccountSummaryResponse>(o, Err::<AccountSummaryResponse, BridgeError>(e)));
                assert(call_ensures(*host, (w,), o) && w@ == jenc(greq));
            }
            Err(e)
        },
        Ok(data) => {
            let ghost gdata = data;
            let r2 = decode_response::<AccountSummaryResponse>(data);
            proof {
                let (w, o) = choose|w: String, o: HostResult|
                    {
                        &&& w@ == jenc(request.jval())
                        &&& #[trigger] call_ensures(*host, (w,), o)
                        &&& Ok::<Vec<u8>, BridgeError>(gdata) == spec_classify(o)
                    };
                assert(spec_bridge_result::<AccountSummaryResponse>(o, r2));
                assert(call_ensures(*host, (w,), o) && w@ == jenc(greq));
            }
            r2
        },
    }
}

/// Builds a `liquidation_targets` request, carries it across the host boundary
/// once, and decodes the typed response; the result follows exactly from
/// the outcome the host returned to the request's canonical text.
pub fn query_liquidation_targets<F: Fn(String) -> HostResult>(
    host: &F,
    params: LiquidationTargetsParams,
) -> (r: Result<LiquidationTargetsResponse, BridgeError>)
    requires
        forall|s: String| call_requires(*host, (s,)),
    ensures
        spec_bridged::<LiquidationTargetsResponse, F>(*host, custom_request("liquidation_targets"@, params.jval()), r),
        r matches Err(e) ==> !(e matches BridgeError::Encode { .. }),
        r matches Ok(x) ==> exists|s: Seq<char>| p_json(s, 0) == Some(
            (#[trigger] x.jval(), s.len() as int),
        ),
{
    let request = QueryRequest::Custom(StructUmeeQuery::liquidation_targets(params));
    let ghost greq = custom_request("liquidation_targets"@, params.jval());
    proof {
        assert(request.jval() =~~= greq);
    }
    let chained = query_chain(host, &request);
    match chained {
        Err(e) => {
            proof {
                let (w, o) = choose|w: String, o: HostResult|
                    {
                        &&& w@ == jenc(request.jval())
                        &&& #[trigger] call_ensures(*host, (w,), o)
                        &&& Err::<Vec<u8>, BridgeError>(e) == spec_classify(o)
                    };
                assert(spec_bridge_result::<LiquidationTargetsResponse>(o, Err::<LiquidationTargetsResponse, BridgeError>(e)));
                assert(call_ensures(*host, (w,), o) && w@ == jenc(greq));
            }
            Err(e)
        },
        Ok(data) => {
            let ghost gdata = data;
            let r2 = decode_response::<LiquidationTargetsResponse>(data);
            proof {
                let (w, o) = choose|w: String, o: HostResult|
                    {
                        &&& w@ == jenc(request.jval())
                        &&& #[trigger] call_ensures(*host, (w,), o)
                        &&& Ok::<Vec<u8>, BridgeError>(gdata) == spec_classify(o)
                    };
                assert(spec_bridge_result::<LiquidationTargetsResponse>(o, r2));
                assert(call_ensures(*host, (w,), o) && w@ == jenc(greq));
            }
            r2
        },
    }
}

/// Builds a `bad_debts_parameters` request, carries it across the host boundary
/// once, and decodes the typed response; the result follows exactly from
/// the outcome the host returned to the request's canonical text.
pub fn query_bad_debts<F: Fn(String) -> HostResult>(
    host: &F,
    params: BadDebtsParams,
) -> (r: Result<BadDebtsResponse, BridgeError>)
    requires
        forall|s: String| call_requires(*host, (s,)),
    ensures
        spec_bridged::<BadDebtsResponse, F>(*host, custom_request("bad_debts_params"@, params.jval()), r),
        r matches Err(e) ==> !(e matches BridgeError::Encode { .. }),
        r matches Ok(x) ==> exists|s: Seq<char>| p_json(s, 0) == Some(
            (#[trigger] x.jval(), s.len() as int),
        ),
{
    let request = QueryRequest::Custom(StructUmeeQuery::bad_debts_parameters(params));
    let ghost greq = custom_request("bad_debts_params"@, params.jval());
    proof {
        assert(request.jval() =~~= greq);
    }
    let chained = query_chain(host, &request);
    match chained {
        Err(e) => {
            proof {
                let (w, o) = choose|w: String, o: HostResult|
                    {
                        &&& w@ == jenc(request.jval())
                        &&& #[trigger] call_ensures(*host, (w,), o)
                        &&& Err::<Vec<u8>, BridgeError>(e) == spec_classify(o)
                    };
                assert(spec_bridge_result::<BadDebtsResponse>(o, Err::<BadDebtsResponse, BridgeError>(e)));
                assert(call_ensures(*host, (w,), o) && w@ == jenc(greq));
            }
            Err(e)
        },
        Ok(data) => {
            let ghost gdata = data;
            let r2 = decode_response::<BadDebtsResponse>(data);
            proof {
                let (w, o) = choose|w: String, o: HostResult|
                    {
                        &&& w@ == jenc(request.jval())
                        &&& #[trigger] call_ensures(*host, (w,), o)
                        &&& Ok::<Vec<u8>, BridgeError>(gdata) == spec_classify(o)
                    };
                assert(spec_bridge_result::<BadDebtsResponse>(o, r2));
                assert(call_ensures(*host, (w,), o) && w@ == jenc(greq));
            }
            r2
        },
    }
}

/// Builds a `max_withdraw_params` request, carries it across the host boundary
/// once, and decodes the typed response; the result follows exactly from
/// the outcome the host returned to the request's canonical text.
pub fn query_max_withdraw<F: Fn(String) -> HostResult>(
    host: &F,
    params: MaxWithdrawParams,
) -> (r: Result<MaxWithdrawResponse, BridgeError>)
    requires
        forall|s: String| call_requires(*host, (s,)),
    ensures
        spec_bridged::<MaxWithdrawResponse, F>(*host, custom_request("max_withdraw_params"@, params.jval()), r),
        r matches Err(e) ==> !(e matches BridgeError::Encode { .. }),
        r matches Ok(x) ==> exists|s: Seq<char>| p_json(s, 0) == Some(
            (#[trigger] x.jval(), s.len() as int),
        ),
{
    let request = QueryRequest::Custom(StructUmeeQuery::max_withdraw_params(params));
    let ghost greq = custom_request("max_withdraw_params"@, params.jval());
    proof {
        assert(request.jval() =~~= greq);
    }
    let chained = query_chain(host, &request);
    match chained {
        Err(e) => {
            proof {
                let (w, o) = choose|w: String, o: HostResult|
                    {
                        &&& w@ == jenc(request.jval())
                        &&& #[trigger] call_ensures(*host, (w,), o)
                        &&& Err::<Vec<u8>, BridgeError>(e) == spec_classify(o)
                    };
                assert(spec_bridge_result::<MaxWithdrawResponse>(o, Err::<MaxWithdrawResponse, BridgeError>(e)));
                assert(call_ensures(*host, (w,), o) && w@ == jenc(greq));
            }
            Err(e)
        },
        Ok(data) => {
            let ghost gdata = data;
            let r2 = decode_response::<MaxWithdrawResponse>(data);
            proof {
                let (w, o) = choose|w: String, o: HostResult|
                    {
                        &&& w@ == jenc(request.jval())
                        &&& #[trigger] call_ensures(*host, (w,), o)
                        &&& Ok::<Vec<u8>, BridgeError>(gdata) == spec_classify(o)
                    };
                assert(spec_bridge_result::<MaxWithdrawResponse>(o, r2));
                assert(call_ensures(*host, (w,), o) && w@ == jenc(greq));
            }
            r2
        },
    }
}

/// Builds a `max_borrow_params` request, carries it across the host boundary
/// once, and decodes the typed response; the result follows exactly from
/// the outcome the host returned to the request's canonical text.
pub fn query_max_borrow<F: Fn(String) -> HostResult>(
    host: &F,
    params: MaxBorrowParams,
) -> (r: Result<MaxBorrowResponse, BridgeError>)
    requires
        forall|s: String| call_requires(*host, (s,)),
    ensures
        spec_bridged::<MaxBorrowResponse, F>(*host, custom_request("max_borrow_params"@, params.jval()), r),
        r matches Err(e) ==> !(e matches BridgeError::Encode { .. }),
        r matches Ok(x) ==> exists|s: Seq<char>| p_json(s, 0) == Some(
            (#[trigger] x.jval(), s.len() as int),
        ),
{
    let request = QueryRequest::Custom(StructUmeeQuery::max_borrow_params(params));
    let ghost greq = custom_request("max_borrow_params"@, params.jval());
    proof {
        assert(request.jval() =~~= greq);
    }
    let chained = query_chain(host, &request);
    match chained {
        Err(e) => {
            proof {
                let (w, o) = choose|w: String, o: HostResult|
                    {
                        &&& w@ == jenc(request.jval())
                        &&& #[trigger] call_ensures(*host, (w,), o)
                        &&& Err::<Vec<u8>, BridgeError>(e) == spec_classify(o)
                    };
                assert(spec_bridge_result::<MaxBorrowResponse>(o, Err::<MaxBorrowResponse, BridgeError>(e)));
                assert(call_ensures(*host, (w,), o) && w@ == jenc(greq));
            }
            Err(e)
        },
        Ok(data) => {
            let ghost gdata = data;
            let r2 = decode_response::<MaxBorrowResponse>(data);
            proof {
                let (w, o) = choose|w: String, o: HostResult|
                    {
                        &&& w@ == jenc(request.jval())
                        &&& #[trigger] call_ensures(*host, (w,), o)
                        &&& Ok::<Vec<u8>, BridgeError>(gdata) == spec_classify(o)
                    };
                assert(spec_bridge_result::<MaxBorrowResponse>(o, r2));
                assert(call_ensures(*host, (w,), o) && w@ == jenc(greq));
            }
            r2
        },
    }
}

/// Builds a `active_exchange_rates` request, carries it across the host boundary
/// once, and decodes the typed response; the result follows exactly from
/// the outcome the host returned to the request's canonical text.
pub fn query_active_exchange_rates<F: Fn(String) -> HostResult>(
    host: &F,
    params: ActiveExchangeRatesParams,
) -> (r: Result<ActiveExchangeRatesResponse, BridgeError>)
    requires
        forall|s: String| call_requires(*host, (s,)),
    ensures
        spec_bridged::<ActiveExchangeRatesResponse, F>(*host, custom_request("active_exchange_rates"@, params.jval()), r),
        r matches Err(e) ==> !(e matches BridgeError::Encode { .. }),
        r matches Ok(x) ==> exists|s: Seq<char>| p_json(s, 0) == Some(
            (#[trigger] x.jval(), s.len() as int),
        ),
{
    let request = QueryRequest::Custom(StructUmeeQuery::active_exchange_rates(params));
    let ghost greq = custom_request("active_exchange_rates"@, params.jval());
    proof {
        assert(request.jval() =~~= greq);
    }
    let chained = query_chain(host, &request);
    match chained {
        Err(e) => {
            proof {
                let (w, o) = choose|w: String, o: HostResult|
                    {
                        &&& w@ == jenc(request.jval())
                        &&& #[trigger] call_ensures(*host, (w,), o)
                        &&& Err::<Vec<u8>, BridgeError>(e) == spec_classify(o)
                    };
                assert(spec_bridge_result::<ActiveExchangeRatesResponse>(o, Err::<ActiveExchangeRatesResponse, BridgeError>(e)));
                assert(call_ensures(*host, (w,), o) && w@ == jenc(greq));
            }
            Err(e)
        },
        Ok(data) => {
            let ghost gdata = data;
            let r2 = decode_response::<ActiveExchangeRatesResponse>(data);
            proof {
                let (w, o) = choose|w: String, o: HostResult|
                    {
                        &&& w@ == jenc(request.jval())
                        &&& #[trigger] call_ensures(*host, (w,), o)
                        &&& Ok::<Vec<u8>, BridgeError>(gdata) == spec_classify(o)
                    };
                assert(spec_bridge_result::<ActiveExchangeRatesResponse>(o, r2));
                assert(call_ensures(*host, (w,), o) && w@ == jenc(greq));
            }
            r2
        },
    }
}

/// Builds a `feeder_delegation` request, carries it across the host boundary
/// once, and decodes the typed response; the result follows exactly from
/// the outcome the host returned to the request's canonical text.
pub fn query_feeder_delegation<F: Fn(String) -> HostResult>(
    host: &F,
    params: FeederDelegationParams,
) -> (r: Result<FeederDelegationResponse, BridgeError>)
    requires
        forall|s: String| call_requires(*host, (s,)),
    ensures
        spec_bridged::<FeederDelegationResponse, F>(*host, custom_request("feeder_delegation"@, params.jval()), r),
        r matches Err(e) ==> !(e matches BridgeError::Encode { .. }),
        r matches Ok(x) ==> exists|s: Seq<char>| p_json(s, 0) == Some(
            (#[trigger] x.jval(), s.len() as int),
        ),
{
    let request = QueryRequest::Custom(StructUmeeQuery::feeder_delegation(params));
    let ghost greq = custom_request("feeder_delegation"@, params.jval());
    proof {
        assert(request.jval() =~~= greq);
    }
    let chained = query_chain(host, &request);
    match chained {
        Err(e) => {
            proof {
                let (w, o) = choose|w: String, o: HostResult|
                    {
                        &&& w@ == jenc(request.jval())
                        &&& #[trigger] call_ensures(*host, (w,), o)
                        &&& Err::<Vec<u8>, BridgeError>(e) == spec_classify(o)
                    };
                assert(spec_bridge_result::<FeederDelegationResponse>(o, Err::<FeederDelegationResponse, BridgeError>(e)));
                assert(call_ensures(*host, (w,), o) && w@ == jenc(greq));
            }
            Err(e)
        },
        Ok(data) => {
            let ghost gdata = data;
            let r2 = decode_response::<FeederDelegationResponse>(data);
            proof {
                let (w, o) = choose|w: String, o: HostResult|
                    {
                        &&& w@ == jenc(request.jval())
                        &&& #[trigger] call_ensures(*host, (w,), o)
                        &&& Ok::<Vec<u8>, BridgeError>(gdata) == spec_classify(o)
                    };
                assert(spec_bridge_result::<FeederDelegationResponse>(o, r2));
                assert(call_ensures(*host, (w,), o) && w@ == jenc(greq));
            }
            r2
        },
    }
}

/// Builds a `miss_counter` request, carries it across the host boundary
/// once, and decodes the typed response; the result follows exactly from
/// the outcome the host returned to the request's canonical text.
pub fn query_miss_counter<F: Fn(String) -> HostResult>(
    host: &F,
    params: MissCounterParams,
) -> (r: Result<MissCounterResponse, BridgeError>)
    requires
        forall|s: String| call_requires(*host, (s,)),
    ensures
        spec_bridged::<MissCounterResponse, F>(*host, custom_request("miss_counter"@, params.jval()), r),
        r matches Err(e) ==> !(e matches BridgeError::Encode { .. }),
        r matches Ok(x) ==> exists|s: Seq<char>| p_json(s, 0) == Some(
            (#[trigger] x.jval(), s.len() as int),
        ),
{
    let request = QueryRequest::Custom(StructUmeeQuery::miss_counter(params));
    let ghost greq = custom_request("miss_counter"@, params.jval());
    proof {
        assert(request.jval() =~~= greq);
    }
    let chained = query_chain(host, &request);
    match chained {
        Err(e) => {
            proof {
                let (w, o) = choose|w: String, o: HostResult|
                    {
                        &&& w@ == jenc(request.jval())
                        &&& #[trigger] call_ensures(*host, (w,), o)
                        &&& Err::<Vec<u8>, BridgeError>(e) == spec_classify(o)
                    };
                assert(spec_bridge_result::<MissCounterResponse>(o, Err::<MissCounterResponse, BridgeError>(e)));
                assert(call_ensures(*host, (w,), o) && w@ == jenc(greq));
            }
            Err(e)
        },
        Ok(data) => {
            let ghost gdata = data;
            let r2 = decode_response::<MissCounterResponse>(data);
            proof {
                let (w, o) = choose|w: String, o: HostResult|
                    {
                        &&& w@ == jenc(request.jval())
                        &&& #[trigger] call_ensures(*host, (w,), o)
                        &&& Ok::<Vec<u8>, BridgeError>(gdata) == spec_classify(o)
                    };
                assert(spec_bridge_result::<MissCounterResponse>(o, r2));
                assert(call_ensures(*host, (w,), o) && w@ == jenc(greq));
            }
            r2
        },
    }
}

/// Builds a `slash_window` request, carries it across the host boundary
/// once, and decodes the typed response; the result follows exactly from
/// the outcome the host returned to the request's canonical text.
pub fn query_slash_window<F: Fn(String) -> HostResult>(
    host: &F,
    params: SlashWindowParams,
) -> (r: Result<SlashWindowResponse, BridgeError>)
    requires
        forall|s: String| call_requires(*host, (s,)),
    ensures
        spec_bridged::<SlashWindowResponse, F>(*host, custom_request("slash_window"@, params.jval()), r),
        r matches Err(e) ==> !(e matches BridgeError::Encode { .. }),
        r matches Ok(x) ==> exists|s: Seq<char>| p_json(s, 0) == Some(
            (#[trigger] x.jval(), s.len() as int),
        ),
{
    let request = QueryRequest::Custom(StructUmeeQuery::slash_window(params));
    let ghost greq = custom_request("slash_window"@, params.jval());
    proof {
        assert(request.jval() =~~= greq);
    }
    let chained = query_chain(host, &request);
    match chained {
        Err(e) => {
            proof {
                let (w, o) = choose|w: String, o: HostResult|
                    {
                        &&& w@ == jenc(request.jval())
                        &&& #[trigger] call_ensures(*host, (w,), o)
                        &&& Err::<Vec<u8>, BridgeError>(e) == spec_classify(o)
                    };
                assert(spec_bridge_result::<SlashWindowResponse>(o, Err::<SlashWindowResponse, BridgeError>(e)));
                assert(call_ensures(*host, (w,), o) && w@ == jenc(greq));
            }
            Err(e)
        },
        Ok(data) => {
            let ghost gdata = data;
            let r2 = decode_response::<SlashWindowResponse>(data);
            proof {
                let (w, o) = choose|w: String, o: HostResult|
                    {
                        &&& w@ == jenc(request.jval())
                        &&& #[trigger] call_ensures(*host, (w,), o)
                        &&& Ok::<Vec<u8>, BridgeError>(gdata) == spec_classify(o)
                    };
                assert(spec_bridge_result::<SlashWindowResponse>(o, r2));
                assert(call_ensures(*host, (w,), o) && w@ == jenc(greq));
            }
            r2
        },
    }
}

/// Builds a `aggregate_prevote` request, carries it across the host boundary
/// once, and decodes the typed response; the result follows exactly from
/// the outcome the host returned to the request's canonical text.
pub fn query_aggregate_prevote<F: Fn(String) -> HostResult>(
    host: &F,
    params: AggregatePrevoteParams,
) -> (r: Result<AggregatePrevoteResponse, BridgeError>)
    requires
        forall|s: String| call_requires(*host, (s,)),
    ensures
        spec_bridged::<AggregatePrevoteResponse, F>(*host, custom_request("aggregate_prevote"@, params.jval()), r),
        r matches Err(e) ==> !(e matches BridgeError::Encode { .. }),
        r matches Ok(x) ==> exists|s: Seq<char>| p_json(s, 0) == Some(
            (#[trigger] x.jval(), s.len() as int),
        ),
{
    let request = QueryRequest::Custom(StructUmeeQuery::aggregate_prevote(params));
    let ghost greq = custom_request("aggregate_prevote"@, params.jval());
    proof {
        assert(request.jval() =~~= greq);
    }
    let chained = query_chain(host, &request);
    match chained {
        Err(e) => {
            proof {
                let (w, o) = choose|w: String, o: HostResult|
                    {
                        &&& w@ == jenc(request.jval())
                        &&& #[trigger] call_ensures(*host, (w,), o)
                        &&& Err::<Vec<u8>, BridgeError>(e) == spec_classify(o)
                    };
                assert(spec_bridge_result::<AggregatePrevoteResponse>(o, Err::<AggregatePrevoteResponse, BridgeError>(e)));
                assert(call_ensures(*host, (w,), o) && w@ == jenc(greq));
            }
            Err(e)
        },
        Ok(data) => {
            let ghost gdata = data;
            let r2 = decode_response::<AggregatePrevoteResponse>(data);
            proof {
                let (w, o) = choose|w: String, o: HostResult|
                    {
                        &&& w@ == jenc(request.jval())
                        &&& #[trigger] call_ensures(*host, (w,), o)
                        &&& Ok::<Vec<u8>, BridgeError>(gdata) == spec_classify(o)
                    };
                assert(spec_bridge_result::<AggregatePrevoteResponse>(o, r2));
                assert(call_ensures(*host, (w,), o) && w@ == jenc(greq));
            }
            r2
        },
    }
}

/// Builds a `aggregate_prevotes` request, carries it across the host boundary
/// once, and decodes the typed response; the result follows exactly from
/// the outcome the host returned to the request's canonical text.
pub fn query_aggregate_prevotes<F: Fn(String) -> HostResult>(
    host: &F,
    params: AggregatePrevotesParams,
) -> (r: Result<AggregatePrevotesResponse, BridgeError>)
    requires
        forall|s: String| call_requires(*host, (s,)),
    ensures
        spec_bridged::<AggregatePrevotesResponse, F>(*host, custom_request("aggregate_prevotes"@, params.jval()), r),
        r matches Err(e) ==> !(e matches BridgeError::Encode { .. }),
        r matches Ok(x) ==> exists|s: Seq<char>| p_json(s, 0) == Some(
            (#[trigger] x.jval(), s.len() as int),
        ),
{
    let request = QueryRequest::Custom(StructUmeeQuery::aggregate_prevotes(params));
    let ghost greq = custom_request("aggregate_prevotes"@, params.jval());
    proof {
        assert(request.jval() =~~= greq);
    }
    let chained = query_chain(host, &request);
    match chained {
        Err(e) => {
            proof {
                let (w, o) = choose|w: String, o: HostResult|
                    {
                        &&& w@ == jenc(request.jval())
                        &&& #[trigger] call_ensures(*host, (w,), o)
                        &&& Err::<Vec<u8>, BridgeError>(e) == spec_classify(o)
                    };
                assert(spec_bridge_result::<AggregatePrevotesResponse>(o, Err::<AggregatePrevotesResponse, BridgeError>(e)));
                assert(call_ensures(*host, (w,), o) && w@ == jenc(greq));
            }
            Err(e)
        },
        Ok(data) => {
            let ghost gdata = data;
            let r2 = decode_response::<AggregatePrevotesResponse>(data);
            proof {
                let (w, o) = choose|w: String, o: HostResult|
                    {
                        &&& w@ == jenc(request.jval())
                        &&& #[trigger] call_ensures(*host, (w,), o)
                        &&& Ok::<Vec<u8>, BridgeError>(gdata) == spec_classify(o)
                    };
                assert(spec_bridge_result::<AggregatePrevotesResponse>(o, r2));
                assert(call_ensures(*host, (w,), o) && w@ == jenc(greq));
            }
            r2
        },
    }
}

/// Builds a `aggregate_vote` request, carries it across the host boundary
/// once, and decodes the typed response; the result follows exactly from
/// the outcome the host returned to the request's canonical text.
pub fn query_aggregate_vote<F: Fn(String) -> HostResult>(
    host: &F,
    params: AggregateVoteParams,
) -> (r: Result<AggregateVoteResponse, BridgeError>)
    requires
        forall|s: String| call_requires(*host, (s,)),
    ensures
        spec_bridged::<AggregateVoteResponse, F>(*host, custom_request("aggregate_vote"@, params.jval()), r),
        r matches Err(e) ==> !(e matches BridgeError::Encode { .. }),
        r matches Ok(x) ==> exists|s: Seq<char>| p_json(s, 0) == Some(
            (#[trigger] x.jval(), s.len() as int),
        ),
{
    let request = QueryRequest::Custom(StructUmeeQuery::aggregate_vote(params));
    let ghost greq = custom_request("aggregate_vote"@, params.jval());
    proof {
        assert(request.jval() =~~= greq);
    }
    let chained = query_chain(host, &request);
    match chained {
        Err(e) => {
            proof {
                let (w, o) = choose|w: String, o: HostResult|
                    {
                        &&& w@ == jenc(request.jval())
                        &&& #[trigger] call_ensures(*host, (w,), o)
                        &&& Err::<Vec<u8>, BridgeError>(e) == spec_classify(o)
                    };
                assert(spec_bridge_result::<AggregateVoteResponse>(o, Err::<AggregateVoteResponse, BridgeError>(e)));
                assert(call_ensures(*host, (w,), o) && w@ == jenc(greq));
            }
            Err(e)
        },
        Ok(data) => {
            let ghost gdata = data;
            let r2 = decode_response::<AggregateVoteResponse>(data);
            proof {
                let (w, o) = choose|w: String, o: HostResult|
                    {
                        &&& w@ == jenc(request.jval())
                        &&& #[trigger] call_ensures(*host, (w,), o)
                        &&& Ok::<Vec<u8>, BridgeError>(gdata) == spec_classify(o)
                    };
                assert(spec_bridge_result::<AggregateVoteResponse>(o, r2));
                assert(call_ensures(*host, (w,), o) && w@ == jenc(greq));
            }
            r2
        },
    }
}

/// Builds a `aggregate_votes` request, carries it across the host boundary
/// once, and decodes the typed response; the result follows exactly from
/// the outcome the host returned to the request's canonical text.
pub fn query_aggregate_votes<F: Fn(String) -> HostResult>(
    host: &F,
    params: AggregateVotesParams,
) -> (r: Result<AggregateVotesResponse, BridgeError>)
    requires
        forall|s: String| call_requires(*host, (s,)),
    ensures
        spec_bridged::<AggregateVotesResponse, F>(*host, custom_request("aggregate_votes"@, params.jval()), r),
        r matches Err(e) ==> !(e matches BridgeError::Encode { .. }),
        r matches Ok(x) ==> exists|s: Seq<char>| p_json(s, 0) == Some(
            (#[trigger] x.jval(), s.len() as int),
        ),
{
    let request = QueryRequest::Custom(StructUmeeQuery::aggregate_votes(params));
    let ghost greq = custom_request("aggregate_votes"@, params.jval());
    proof {
        assert(request.jval() =~~= greq);
    }
    let chained = query_chain(host, &request);
    match chained {
        Err(e) => {
            proof {
                let (w, o) = choose|w: String, o: HostResult|
                    {
                        &&& w@ == jenc(request.jval())
                        &&& #[trigger] call_ensures(*host, (w,), o)
                        &&& Err::<Vec<u8>, BridgeError>(e) == spec_classify(o)
                    };
                assert(spec_bridge_result::<AggregateVotesResponse>(o, Err::<AggregateVotesResponse, BridgeError>(e)));
                assert(call_ensures(*host, (w,), o) && w@ == jenc(greq));
            }
            Err(e)
        },
        Ok(data) => {
            let ghost gdata = data;
            let r2 = decode_response::<AggregateVotesResponse>(data);
            proof {
                let (w, o) = choose|w: String, o: HostResult|
                    {
                        &&& w@ == jenc(request.jval())
                        &&& #[trigger] call_ensures(*host, (w,), o)
                        &&& Ok::<Vec<u8>, BridgeError>(gdata) == spec_classify(o)
                    };
                assert(spec_bridge_result::<AggregateVotesResponse>(o, r2));
                assert(call_ensures(*host, (w,), o) && w@ == jenc(greq));
            }
            r2
        },
    }
}

/// Builds a `oracle_parameters` request, carries it across the host boundary
/// once, and decodes the typed response; the result follows exactly from
/// the outcome the host returned to the request's canonical text.
pub fn query_oracle_parameters<F: Fn(String) -> HostResult>(
    host: &F,
    params: OracleParametersParams,
) -> (r: Result<OracleParametersResponse, BridgeError>)
    requires
        forall|s: String| call_requires(*host, (s,)),
    ensures
        spec_bridged::<OracleParametersResponse, F>(*host, custom_request("oracle_params"@, params.jval()), r),
        r matches Err(e) ==> !(e matches BridgeError::Encode { .. }),
        r matches Ok(x) ==> exists|s: Seq<char>| p_json(s, 0) == Some(
            (#[trigger] x.jval(), s.len() as int),
        ),
{
    let request = QueryRequest::Custom(StructUmeeQuery::oracle_parameters(params));
    let ghost greq = custom_request("oracle_params"@, params.jval());
    proof {
        assert(request.jval() =~~= greq);
    }
    let chained = query_chain(host, &request);
    match chained {
        Err(e) => {
            proof {
                let (w, o) = choose|w: String, o: HostResult|
                    {
                        &&& w@ == jenc(request.jval())
                        &&& #[trigger] call_ensures(*host, (w,), o)
                        &&& Err::<Vec<u8>, BridgeError>(e) == spec_classify(o)
                    };
                assert(spec_bridge_result::<OracleParametersResponse>(o, Err::<OracleParametersResponse, BridgeError>(e)));
                assert(call_ensures(*host, (w,), o) && w@ == jenc(greq));
            }
            Err(e)
        },
        Ok(data) => {
            let ghost gdata = data;
            let r2 = decode_response::<OracleParametersResponse>(data);
            proof {
                let (w, o) = choose|w: String, o: HostResult|
                    {
                        &&& w@ == jenc(request.jval())
                        &&& #[trigger] call_ensures(*host, (w,), o)
                        &&& Ok::<Vec<u8>, BridgeError>(gdata) == spec_classify(o)
                    };
                assert(spec_bridge_result::<OracleParametersResponse>(o, r2));
                assert(call_ensures(*host, (w,), o) && w@ == jenc(greq));
            }
            r2
        },
    }
}

/// Builds a `medians_params` request, carries it across the host boundary
/// once, and decodes the typed response; the result follows exactly from
/// the outcome the host returned to the request's canonical text.
pub fn query_medians<F: Fn(String) -> HostResult>(
    host: &F,
    params: MediansParams,
) -> (r: Result<MediansParamsResponse, BridgeError>)
    requires
        forall|s: String| call_requires(*host, (s,)),
    ensures
        spec_bridged::<MediansParamsResponse, F>(*host, custom_request("medians_params"@, params.jval()), r),
        r matches Err(e) ==> !(e matches BridgeError::Encode { .. }),
        r matches Ok(x) ==> exists|s: Seq<char>| p_json(s, 0) == Some(
            (#[trigger] x.jval(), s.len() as int),
        ),
{
    let request = QueryRequest::Custom(StructUmeeQuery::medians_params(params));
    let ghost greq = custom_request("medians_params"@, params.jval());
    proof {
        assert(request.jval() =~~= greq);
    }
    let chained = query_chain(host, &request);
    match chained {
        Err(e) => {
            proof {
                let (w, o) = choose|w: String, o: HostResult|
                    {
                        &&& w@ == jenc(request.jval())
                        &&& #[trigger] call_ensures(*host, (w,), o)
                        &&& Err::<Vec<u8>, BridgeError>(e) == spec_classify(o)
                    };
                assert(spec_bridge_result::<MediansParamsResponse>(o, Err::<MediansParamsResponse, BridgeError>(e)));
                assert(call_ensures(*host, (w,), o) && w@ == jenc(greq));
            }
            Err(e)
        },
        Ok(data) => {
            let ghost gdata = data;
            let r2 = decode_response::<MediansParamsResponse>(data);
            proof {
                let (w, o) = choose|w: String, o: HostResult|
                    {
                        &&& w@ == jenc(request.jval())
                        &&& #[trigger] call_ensures(*host, (w,), o)
                        &&& Ok::<Vec<u8>, BridgeError>(gdata) == spec_classify(o)
                    };
                assert(spec_bridge_result::<MediansParamsResponse>(o, r2));
                assert(call_ensures(*host, (w,), o) && w@ == jenc(greq));
            }
            r2
        },
    }
}

/// Builds a `median_deviations_params` request, carries it across the host boundary
/// once, and decodes the typed response; the result follows exactly from
/// the outcome the host returned to the request's canonical text.
pub fn query_median_deviations<F: Fn(String) -> HostResult>(
    host: &F,
    params: MedianDeviationsParams,
) -> (r: Result<MedianDeviationsParamsResponse, BridgeError>)
    requires
        forall|s: String| call_requires(*host, (s,)),
    ensures
        spec_bridged::<MedianDeviationsParamsResponse, F>(*host, custom_request("median_deviations_params"@, params.jval()), r),
        r matches Err(e) ==> !(e matches BridgeError::Encode { .. }),
        r matches Ok(x) ==> exists|s: Seq<char>| p_json(s, 0) == Some(
            (#[trigger] x.jval(), s.len() as int),
        ),
{
    let request = QueryRequest::Custom(StructUmeeQuery::median_deviations_params(params));
    let ghost greq = custom_request("median_deviations_params"@, params.jval());
    proof {
        assert(request.jval() =~~= greq);
    }
    let chained = query_chain(host, &request);
    match chained {
        Err(e) => {
            proof {
                let (w, o) = choose|w: String, o: HostResult|
                    {
                        &&& w@ == jenc(request.jval())
                        &&& #[trigger] call_ensures(*host, (w,), o)
                        &&& Err::<Vec<u8>, BridgeError>(e) == spec_classify(o)
                    };
                assert(spec_bridge_result::<MedianDeviationsParamsResponse>(o, Err::<MedianDeviationsParamsResponse, BridgeError>(e)));
                assert(call_ensures(*host, (w,), o) && w@ == jenc(greq));
            }
            Err(e)
        },
        Ok(data) => {
            let ghost gdata = data;
            let r2 = decode_response::<MedianDeviationsParamsResponse>(data);
            proof {
                let (w, o) = choose|w: String, o: HostResult|
                    {
                        &&& w@ == jenc(request.jval())
                        &&& #[trigger] call_ensures(*host, (w,), o)
                        &&& Ok::<Vec<u8>, BridgeError>(gdata) == spec_classify(o)
                    };
                assert(spec_bridge_result::<MedianDeviationsParamsResponse>(o, r2));
                assert(call_ensures(*host, (w,), o) && w@ == jenc(greq));
            }
            r2
        },
    }
}

/// Builds a `incentive_params` request, carries it across the host boundary
/// once, and decodes the typed response; the result follows exactly from
/// the outcome the host returned to the request's canonical text.
pub fn query_incentive_params<F: Fn(String) -> HostResult>(
    host: &F,
    params: IncentiveParametersParams,
) -> (r: Result<IncentiveParametersResponse, BridgeError>)
    requires
        forall|s: String| call_requires(*host, (s,)),
    ensures
        spec_bridged::<IncentiveParametersResponse, F>(*host, custom_request("incentive_parameters"@, params.jval()), r),
        r matches Err(e) ==> !(e matches BridgeError::Encode { .. }),
        r matches Ok(x) ==> exists|s: Seq<char>| p_json(s, 0) == Some(
            (#[trigger] x.jval(), s.len() as int),
        ),
{
    let request = QueryRequest::Custom(StructUmeeQuery::incentive_params(params));
    let ghost greq = custom_request("incentive_parameters"@, params.jval());
    proof {
        assert(request.jval() =~~= greq);
    }
    let chained = query_chain(host, &request);
    match chained {
        Err(e) => {
            proof {
                let (w, o) = choose|w: String, o: HostResult|
                    {
                        &&& w@ == jenc(request.jval())
                        &&& #[trigger] call_ensures(*host, (w,), o)
                        &&& Err::<Vec<u8>, BridgeError>(e) == spec_classify(o)
                    };
                assert(spec_bridge_result::<IncentiveParametersResponse>(o, Err::<IncentiveParametersResponse, BridgeError>(e)));
                assert(call_ensures(*host, (w,), o) && w@ == jenc(greq));
            }
            Err(e)
        },
        Ok(data) => {
            let ghost gdata = data;
            let r2 = decode_response::<IncentiveParametersResponse>(data);
            proof {
                let (w, o) = choose|w: String, o: HostResult|
                    {
                        &&& w@ == jenc(request.jval())
                        &&& #[trigger] call_ensures(*host, (w,), o)
                        &&& Ok::<Vec<u8>, BridgeError>(gdata) == spec_classify(o)
                    };
                assert(spec_bridge_result::<IncentiveParametersResponse>(o, r2));
                assert(call_ensures(*host, (w,), o) && w@ == jenc(greq));
            }
            r2
        },
    }
}

/// Builds a `total_bonded` request, carries it across the host boundary
/// once, and decodes the typed response; the result follows exactly from
/// the outcome the host returned to the request's canonical text.
pub fn query_total_bonded<F: Fn(String) -> HostResult>(
    host: &F,
    params: TotalBondedParams,
) -> (r: Result<TotalBondedResponse, BridgeError>)
    requires
        forall|s: String| call_requires(*host, (s,)),
    ensures
        spec_bridged::<TotalBondedResponse, F>(*host, custom_request("total_bonded"@, params.jval()), r),
        r matches Err(e) ==> !(e matches BridgeError::Encode { .. }),
        r matches Ok(x) ==> exists|s: Seq<char>| p_json(s, 0) == Some(
            (#[trigger] x.jval(), s.len() as int),
        ),
{
    let request = QueryRequest::Custom(StructUmeeQuery::total_bonded(params));
    let ghost greq = custom_request("total_bonded"@, params.jval());
    proof {
        assert(request.jval() =~~= greq);
    }
    let chained = query_chain(host, &request);
    match chained {
        Err(e) => {
            proof {
                let (w, o) = choose|w: String, o: HostResult|
                    {
                        &&& w@ == jenc(request.jval())
                        &&& #[trigger] call_ensures(*host, (w,), o)
                        &&& Err::<Vec<u8>, BridgeError>(e) == spec_classify(o)
                    };
                assert(spec_bridge_result::<TotalBondedResponse>(o, Err::<TotalBondedResponse, BridgeError>(e)));
                assert(call_ensures(*host, (w,), o) && w@ == jenc(greq));
            }
            Err(e)
        },
        Ok(data) => {
            let ghost gdata = data;
            let r2 = decode_response::<TotalBondedResponse>(data);
            proof {
                let (w, o) = choose|w: String, o: HostResult|
                    {
                        &&& w@ == jenc(request.jval())
                        &&& #[trigger] call_ensures(*host, (w,), o)
                        &&& Ok::<Vec<u8>, BridgeError>(gdata) == spec_classify(o)
                    };
                assert(spec_bridge_result::<TotalBondedResponse>(o, r2));
                assert(call_ensures(*host, (w,), o) && w@ == jenc(greq));
            }
            r2
        },
    }
}

/// Builds a `total_unbonding` request, carries it across the host boundary
/// once, and decodes the typed response; the result follows exactly from
/// the outcome the host returned to the request's canonical text.
pub fn query_total_unbonding<F: Fn(String) -> HostResult>(
    host: &F,
    params: TotalUnbondingParams,
) -> (r: Result<TotalUnbondingResponse, BridgeError>)
    requires
        forall|s: String| call_requires(*host, (s,)),
    ensures
        spec_bridged::<TotalUnbondingResponse, F>(*host, custom_request("total_unbonding"@, params.jval()), r),
        r matches Err(e) ==> !(e matches BridgeError::Encode { .. }),
        r matches Ok(x) ==> exists|s: Seq<char>| p_json(s, 0) == Some(
            (#[trigger] x.jval(), s.len() as int),
        ),
{
    let request = QueryRequest::Custom(StructUmeeQuery::total_unbonding(params));
    let ghost greq = custom_request("total_unbonding"@, params.jval());
    proof {
        assert(request.jval() =~~= greq);
    }
    let chained = query_chain(host, &request);
    match chained {
        Err(e) => {
            proof {
                let (w, o) = choose|w: String, o: HostResult|
                    {
                        &&& w@ == jenc(request.jval())
                        &&& #[trigger] call_ensures(*host, (w,), o)
                        &&& Err::<Vec<u8>, BridgeError>(e) == spec_classify(o)
                    };
                assert(spec_bridge_result::<TotalUnbondingResponse>(o, Err::<TotalUnbondingResponse, BridgeError>(e)));
                assert(call_ensures(*host, (w,), o) && w@ == jenc(greq));
            }
            Err(e)
        },
        Ok(data) => {
            let ghost gdata = data;
            let r2 = decode_response::<TotalUnbondingResponse>(data);
            proof {
                let (w, o) = choose|w: String, o: HostResult|
                    {
                        &&& w@ == jenc(request.jval())
                        &&& #[trigger] call_ensures(*host, (w,), o)
                        &&& Ok::<Vec<u8>, BridgeError>(gdata) == spec_classify(o)
                    };
                assert(spec_bridge_result::<TotalUnbondingResponse>(o, r2));
                assert(call_ensures(*host, (w,), o) && w@ == jenc(greq));
            }
            r2
        },
    }
}

/// Builds a `account_bonds` request, carries it across the host boundary
/// once, and decodes the typed response; the result follows exactly from
/// the outcome the host returned to the request's canonical text.
pub fn query_account_bonds<F: Fn(String) -> HostResult>(
    host: &F,
    params: AccountBondsParams,
) -> (r: Result<AccountBondsResponse, BridgeError>)
    requires
        forall|s: String| call_requires(*host, (s,)),
    ensures
        spec_bridged::<AccountBondsResponse, F>(*host, custom_request("account_bonds"@, params.jval()), r),
        r matches Err(e) ==> !(e matches BridgeError::Encode { .. }),
        r matches Ok(x) ==> exists|s: Seq<char>| p_json(s, 0) == Some(
            (#[trigger] x.jval(), s.len() as int),
        ),
{
    let request = QueryRequest::Custom(StructUmeeQuery::account_bonds(params));
    let ghost greq = custom_request("account_bonds"@, params.jval());
    proof {
        assert(request.jval() =~~= greq);
    }
    let chained = query_chain(host, &request);
    match chained {
        Err(e) => {
            proof {
                let (w, o) = choose|w: String, o: HostResult|
                    {
                        &&& w@ == jenc(request.jval())
                        &&& #[trigger] call_ensures(*host, (w,), o)
                        &&& Err::<Vec<u8>, BridgeError>(e) == spec_classify(o)
                    };
                assert(spec_bridge_result::<AccountBondsResponse>(o, Err::<AccountBondsResponse, BridgeError>(e)));
                assert(call_ensures(*host, (w,), o) && w@ == jenc(greq));
            }
            Err(e)
        },
        Ok(data) => {
            let ghost gdata = data;
            let r2 = decode_response::<AccountBondsResponse>(data);
            proof {
                let (w, o) = choose|w: String, o: HostResult|
                    {
                        &&& w@ == jenc(request.jval())
                        &&& #[trigger] call_ensures(*host, (w,), o)
                        &&& Ok::<Vec<u8>, BridgeError>(gdata) == spec_classify(o)
                    };
                assert(spec_bridge_result::<AccountBondsResponse>(o, r2));
                assert(call_ensures(*host, (w,), o) && w@ == jenc(greq));
            }
            r2
        },
    }
}

/// Builds a `pending_rewards` request, carries it across the host boundary
/// once, and decodes the typed response; the result follows exactly from
/// the outcome the host returned to the request's canonical text.
pub fn query_pending_rewards<F: Fn(String) -> HostResult>(
    host: &F,
    params: PendingRewardsParams,
) -> (r: Result<PendingRewardsResponse, BridgeError>)
    requires
        forall|s: String| call_requires(*host, (s,)),
    ensures
        spec_bridged::<PendingRewardsResponse, F>(*host, custom_request("pending_rewards"@, params.jval()), r),
        r matches Err(e) ==> !(e matches BridgeError::Encode { .. }),
        r matches Ok(x) ==> exists|s: Seq<char>| p_json(s, 0) == Some(
            (#[trigger] x.jval(), s.len() as int),
        ),
{
    let request = QueryRequest::Custom(StructUmeeQuery::pending_rewards(params));
    let ghost greq = custom_request("pending_rewards"@, params.jval());
    proof {
        assert(request.jval() =~~= greq);
    }
    let chained = query_chain(host, &request);
    match chained {
        Err(e) => {
            proof {
                let (w, o) = choose|w: String, o: HostResult|
                    {
                        &&& w@ == jenc(request.jval())
                        &&& #[trigger] call_ensures(*host, (w,), o)
                        &&& Err::<Vec<u8>, BridgeError>(e) == spec_classify(o)
                    };
                assert(spec_bridge_result::<PendingRewardsResponse>(o, Err::<PendingRewardsResponse, BridgeError>(e)));
                assert(call_ensures(*host, (w,), o) && w@ == jenc(greq));
            }
            Err(e)
        },
        Ok(data) => {
            let ghost gdata = data;
            let r2 = decode_response::<PendingRewardsResponse>(data);
            proof {
                let (w, o) = choose|w: String, o: HostResult|
                    {
                        &&& w@ == jenc(request.jval())
                        &&& #[trigger] call_ensures(*host, (w,), o)
                        &&& Ok::<Vec<u8>, BridgeError>(gdata) == spec_classify(o)
                    };
                assert(spec_bridge_result::<PendingRewardsResponse>(o, r2));
                assert(call_ensures(*host, (w,), o) && w@ == jenc(greq));
            }
            r2
        },
    }
}

/// Builds a `completed_incentive_programs` request, carries it across the host boundary
/// once, and decodes the typed response; the result follows exactly from
/// the outcome the host returned to the request's canonical text.
pub fn query_completed_incentive_programs<F: Fn(String) -> HostResult>(
    host: &F,
    params: CompletedIncentiveProgramsParams,
) -> (r: Result<CompletedIncentiveProgramsResponse, BridgeError>)
    requires
        forall|s: String| call_requires(*host, (s,)),
    ensures
        spec_bridged::<CompletedIncentiveProgramsResponse, F>(*host, custom_request("completed_incentive_programs"@, params.jval()), r),
        r matches Err(e) ==> !(e matches BridgeError::Encode { .. }),
        r matches Ok(x) ==> exists|s: Seq<char>| p_json(s, 0) == Some(
            (#[trigger] x.jval(), s.len() as int),
        ),
{
    let request = QueryRequest::Custom(StructUmeeQuery::completed_incentive_programs(params));
    let ghost greq = custom_request("completed_incentive_programs"@, params.jval());
    proof {
        assert(request.jval() =~~= greq);
    }
    let chained = query_chain(host, &request);
    match chained {
        Err(e) => {
            proof {
                let (w, o) = choose|w: String, o: HostResult|
                    {
                        &&& w@ == jenc(request.jval())
                        &&& #[trigger] call_ensures(*host, (w,), o)
                        &&& Err::<Vec<u8>, BridgeError>(e) == spec_classify(o)
                    };
                assert(spec_bridge_result::<CompletedIncentiveProgramsResponse>(o, Err::<CompletedIncentiveProgramsResponse, BridgeError>(e)));
                assert(call_ensures(*host, (w,), o) && w@ == jenc(greq));
            }
            Err(e)
        },
        Ok(data) => {
            let ghost gdata = data;
            let r2 = decode_response::<CompletedIncentiveProgramsResponse>(data);
            proof {
                let (w, o) = choose|w: String, o: HostResult|
                    {
                        &&& w@ == jenc(request.jval())
                        &&& #[trigger] call_ensures(*host, (w,), o)
                        &&& Ok::<Vec<u8>, BridgeError>(gdata) == spec_classify(o)
                    };
                assert(spec_bridge_result::<CompletedIncentiveProgramsResponse>(o, r2));
                assert(call_ensures(*host, (w,), o) && w@ == jenc(greq));
            }
            r2
        },
    }
}

/// Builds a `ongoing_incentive_programs` request, carries it across the host boundary
/// once, and decodes the typed response; the result follows exactly from
/// the outcome the host returned to the request's canonical text.
pub fn query_ongoing_incentive_programs<F: Fn(String) -> HostResult>(
    host: &F,
    params: OngoingIncentiveProgramsParams,
) -> (r: Result<OngoingIncentiveProgramsResponse, BridgeError>)
    requires
        forall|s: String| call_requires(*host, (s,)),
    ensures
        spec_bridged::<OngoingIncentiveProgramsResponse, F>(*host, custom_request("ongoing_incentive_programs"@, params.jval()), r),
        r matches Err(e) ==> !(e matches BridgeError::Encode { .. }),
        r matches Ok(x) ==> exists|s: Seq<char>| p_json(s, 0) == Some(
            (#[trigger] x.jval(), s.len() as int),
        ),
{
    let request = QueryRequest::Custom(StructUmeeQuery::ongoing_incentive_programs(params));
    let ghost greq = custom_request("ongoing_incentive_programs"@, params.jval());
    proof {
        assert(request.jval() =~~= greq);
    }
    let chained = query_chain(host, &request);
    match chained {
        Err(e) => {
            proof {
                let (w, o) = choose|w: String, o: HostResult|
                    {
                        &&& w@ == jenc(request.jval())
                        &&& #[trigger] call_ensures(*host, (w,), o)
                        &&& Err::<Vec<u8>, BridgeError>(e) == spec_classify(o)
                    };
                assert(spec_bridge_result::<OngoingIncentiveProgramsResponse>(o, Err::<OngoingIncentiveProgramsResponse, BridgeError>(e)));
                assert(call_ensures(*host, (w,), o) && w@ == jenc(greq));
            }
            Err(e)
        },
        Ok(data) => {
            let ghost gdata = data;
            let r2 = decode_response::<OngoingIncentiveProgramsResponse>(data);
            proof {
                let (w, o) = choose|w: String, o: HostResult|
                    {
                        &&& w@ == jenc(request.jval())
                        &&& #[trigger] call_ensures(*host, (w,), o)
                        &&& Ok::<Vec<u8>, BridgeError>(gdata) == spec_classify(o)
                    };
                assert(spec_bridge_result::<OngoingIncentiveProgramsResponse>(o, r2));
                assert(call_ensures(*host, (w,), o) && w@ == jenc(greq));
            }
            r2
        },
    }
}

/// Builds a `upcoming_incentive_programs` request, carries it across the host boundary
/// once, and decodes the typed response; the result follows exactly from
/// the outcome the host returned to the request's canonical text.
pub fn query_upcoming_incentive_programs<F: Fn(String) -> HostResult>(
    host: &F,
    params: UpcomingIncentiveProgramsParams,
) -> (r: Result<UpcomingIncentiveProgramsResponse, BridgeError>)
    requires
        forall|s: String| call_requires(*host, (s,)),
    ensures
        spec_bridged::<UpcomingIncentiveProgramsResponse, F>(*host, custom_request("upcoming_incentive_programs"@, params.jval()), r),
        r matches Err(e) ==> !(e matches BridgeError::Encode { .. }),
        r matches Ok(x) ==> exists|s: Seq<char>| p_json(s, 0) == Some(
            (#[trigger] x.jval(), s.len() as int),
        ),
{
    let request = QueryRequest::Custom(StructUmeeQuery::upcoming_incentive_programs(params));
    let ghost greq = custom_request("upcoming_incentive_programs"@, params.jval());
    proof {
        assert(request.jval() =~~= greq);
    }
    let chained = query_chain(host, &request);
    match chained {
        Err(e) => {
            proof {
                let (w, o) = choose|w: String, o: HostResult|
                    {
                        &&& w@ == jenc(request.jval())
                        &&& #[trigger] call_ensures(*host, (w,), o)
                        &&& Err::<Vec<u8>, BridgeError>(e) == spec_classify(o)
                    };
                assert(spec_bridge_result::<UpcomingIncentiveProgramsResponse>(o, Err::<UpcomingIncentiveProgramsResponse, BridgeError>(e)));
                assert(call_ensures(*host, (w,), o) && w@ == jenc(greq));
            }
            Err(e)
        },
        Ok(data) => {
            let ghost gdata = data;
            let r2 = decode_response::<UpcomingIncentiveProgramsResponse>(data);
            proof {
                let (w, o) = choose|w: String, o: HostResult|
                    {
                        &&& w@ == jenc(request.jval())
                        &&& #[trigger] call_ensures(*host, (w,), o)
                        &&& Ok::<Vec<u8>, BridgeError>(gdata) == spec_classify(o)
                    };
                assert(spec_bridge_result::<UpcomingIncentiveProgramsResponse>(o, r2));
                assert(call_ensures(*host, (w,), o) && w@ == jenc(greq));
            }
            r2
        },
    }
}

/// Builds a `incentive_program` request, carries it across the host boundary
/// once, and decodes the typed response; the result follows exactly from
/// the outcome the host returned to the request's canonical text.
pub fn query_incentive_program<F: Fn(String) -> HostResult>(
    host: &F,
    params: IncentiveProgramParams,
) -> (r: Result<IncentiveProgramResponse, BridgeError>)
    requires
        forall|s: String| call_requires(*host, (s,)),
    ensures
        spec_bridged::<IncentiveProgramResponse, F>(*host, custom_request("incentive_program"@, params.jval()), r),
        r matches Err(e) ==> !(e matches BridgeError::Encode { .. }),
        r matches Ok(x) ==> exists|s: Seq<char>| p_json(s, 0) == Some(
            (#[trigger] x.jval(), s.len() as int),
        ),
{
    let request = QueryRequest::Custom(StructUmeeQuery::incentive_program(params));
    let ghost greq = custom_request("incentive_program"@, params.jval());
    proof {
        assert(request.jval() =~~= greq);
    }
    let chained = query_chain(host, &request);
    match chained {
        Err(e) => {
            proof {
                let (w, o) = choose|w: String, o: HostResult|
                    {
                        &&& w@ == jenc(request.jval())
                        &&& #[trigger] call_ensures(*host, (w,), o)
                        &&& Err::<Vec<u8>, BridgeError>(e) == spec_classify(o)
                    };
                assert(spec_bridge_result::<IncentiveProgramResponse>(o, Err::<IncentiveProgramResponse, BridgeError>(e)));
                assert(call_ensures(*host, (w,), o) && w@ == jenc(greq));
            }
            Err(e)
        },
        Ok(data) => {
            let ghost gdata = data;
            let r2 = decode_response::<IncentiveProgramResponse>(data);
            proof {
                let (w, o) = choose|w: String, o: HostResult|
                    {
                        &&& w@ == jenc(request.jval())
                        &&& #[trigger] call_ensures(*host, (w,), o)
                        &&& Ok::<Vec<u8>, BridgeError>(gdata) == spec_classify(o)
                    };
                assert(spec_bridge_result::<IncentiveProgramResponse>(o, r2));
                assert(call_ensures(*host, (w,), o) && w@ == jenc(greq));
            }
            r2
        },
    }
}

/// Builds a `current_rates` request, carries it across the host boundary
/// once, and decodes the typed response; the result follows exactly from
/// the outcome the host returned to the request's canonical text.
pub fn query_current_rates<F: Fn(String) -> HostResult>(
    host: &F,
    params: CurrentRatesParams,
) -> (r: Result<CurrentRatesResponse, BridgeError>)
    requires
        forall|s: String| call_requires(*host, (s,)),
    ensures
        spec_bridged::<CurrentRatesResponse, F>(*host, custom_request("current_rates"@, params.jval()), r),
        r matches Err(e) ==> !(e matches BridgeError::Encode { .. }),
        r matches Ok(x) ==> exists|s: Seq<char>| p_json(s, 0) == Some(
            (#[trigger] x.jval(), s.len() as int),
        ),
{
    let request = QueryRequest::Custom(StructUmeeQuery::current_rates(params));
    let ghost greq = custom_request("current_rates"@, params.jval());
    proof {
        assert(request.jval() =~~= greq);
    }
    let chained = query_chain(host, &request);
    match chained {
        Err(e) => {
            proof {
                let (w, o) = choose|w: String, o: HostResult|
                    {
                        &&& w@ == jenc(request.jval())
                        &&& #[trigger] call_ensures(*host, (w,), o)
                        &&& Err::<Vec<u8>, BridgeError>(e) == spec_classify(o)
                    };
                assert(spec_bridge_result::<CurrentRatesResponse>(o, Err::<CurrentRatesResponse, BridgeError>(e)));
                assert(call_ensures(*host, (w,), o) && w@ == jenc(greq));
            }
            Err(e)
        },
        Ok(data) => {
            let ghost gdata = data;
            let r2 = decode_response::<CurrentRatesResponse>(data);
            proof {
                let (w, o) = choose|w: String, o: HostResult|
                    {
                        &&& w@ == jenc(request.jval())
                        &&& #[trigger] call_ensures(*host, (w,), o)
                        &&& Ok::<Vec<u8>, BridgeError>(gdata) == spec_classify(o)
                    };
                assert(spec_bridge_result::<CurrentRatesResponse>(o, r2));
                assert(call_ensures(*host, (w,), o) && w@ == jenc(greq));
            }
            r2
        },
    }
}

/// Builds a `actual_rates` request, carries it across the host boundary
/// once, and decodes the typed response; the result follows exactly from
/// the outcome the host returned to the request's canonical text.
pub fn query_actutal_rates<F: Fn(String) -> HostResult>(
    host: &F,
    params: ActualRatesParams,
) -> (r: Result<ActualRatesResponse, BridgeError>)
    requires
        forall|s: String| call_requires(*host, (s,)),
    ensures
        spec_bridged::<ActualRatesResponse, F>(*host, custom_request("actual_rates"@, params.jval()), r),
        r matches Err(e) ==> !(e matches BridgeError::Encode { .. }),
        r matches Ok(x) ==> exists|s: Seq<char>| p_json(s, 0) == Some(
            (#[trigger] x.jval(), s.len() as int),
        ),
{
    let request = QueryRequest::Custom(StructUmeeQuery::actual_rates(params));
    let ghost greq = custom_request("actual_rates"@, params.jval());
    proof {
        assert(request.jval() =~~= greq);
    }
    let chained = query_chain(host, &request);
    match chained {
        Err(e) => {
            proof {
                let (w, o) = choose|w: String, o: HostResult|
                    {
                        &&& w@ == jenc(request.jval())
                        &&& #[trigger] call_ensures(*host, (w,), o)
                        &&& Err::<Vec<u8>, BridgeError>(e) == spec_classify(o)
                    };
                assert(spec_bridge_result::<ActualRatesResponse>(o, Err::<ActualRatesResponse, BridgeError>(e)));
                assert(call_ensures(*host, (w,), o) && w@ == jenc(greq));
            }
            Err(e)
        },
        Ok(data) => {
            let ghost gdata = data;
            let r2 = decode_response::<ActualRatesResponse>(data);
            proof {
                let (w, o) = choose|w: String, o: HostResult|
                    {
                        &&& w@ == jenc(request.jval())
                        &&& #[trigger] call_ensures(*host, (w,), o)
                        &&& Ok::<Vec<u8>, BridgeError>(gdata) == spec_classify(o)
                    };
                assert(spec_bridge_result::<ActualRatesResponse>(o, r2));
                assert(call_ensures(*host, (w,), o) && w@ == jenc(greq));
            }
            r2
        },
    }
}

/// Builds a `last_reward_time` request, carries it across the host boundary
/// once, and decodes the typed response; the result follows exactly from
/// the outcome the host returned to the request's canonical text.
pub fn query_last_reward_time<F: Fn(String) -> HostResult>(
    host: &F,
    params: LastRewardTimeParams,
) -> (r: Result<LastRewardTimeResponse, BridgeError>)
    requires
        forall|s: String| call_requires(*host, (s,)),
    ensures
        spec_bridged::<LastRewardTimeResponse, F>(*host, custom_request("last_reward_time"@, params.jval()), r),
        r matches Err(e) ==> !(e matches BridgeError::Encode { .. }),
        r matches Ok(x) ==> exists|s: Seq<char>| p_json(s, 0) == Some(
            (#[trigger] x.jval(), s.len() as int),
        ),
{
    let request = QueryRequest::Custom(StructUmeeQuery::last_reward_time(params));
    let ghost greq = custom_request("last_reward_time"@, params.jval());
    proof {
        assert(request.jval() =~~= greq);
    }
    let chained = query_chain(host, &request);
    match chained {
        Err(e) => {
            proof {
                let (w, o) = choose|w: String, o: HostResult|
                    {
                        &&& w@ == jenc(request.jval())
                        &&& #[trigger] call_ensures(*host, (w,), o)
                        &&& Err::<Vec<u8>, BridgeError>(e) == spec_classify(o)
                    };
                assert(spec_bridge_result::<LastRewardTimeResponse>(o, Err::<LastRewardTimeResponse, BridgeError>(e)));
                assert(call_ensures(*host, (w,), o) && w@ == jenc(greq));
            }
            Err(e)
        },
        Ok(data) => {
            let ghost gdata = data;
            let r2 = decode_response::<LastRewardTimeResponse>(data);
            proof {
                let (w, o) = choose|w: String, o: HostResult|
                    {
                        &&& w@ == jenc(request.jval())
                        &&& #[trigger] call_ensures(*host, (w,), o)
                        &&& Ok::<Vec<u8>, BridgeError>(gdata) == spec_classify(o)
                    };
                assert(spec_bridge_result::<LastRewardTimeResponse>(o, r2));
                assert(call_ensures(*host, (w,), o) && w@ == jenc(greq));
            }
            r2
        },
    }
}

/// Builds a `metoken_parameters` request, carries it across the host boundary
/// once, and decodes the typed response; the result follows exactly from
/// the outcome the host returned to the request's canonical text.
pub fn query_metoken_params<F: Fn(String) -> HostResult>(
    host: &F,
    params: MetokenParametersParams,
) -> (r: Result<MetokenParametersResponse, BridgeError>)
    requires
        forall|s: String| call_requires(*host, (s,)),
    ensures
        spec_bridged::<MetokenParametersResponse, F>(*host, custom_request("metoken_parameters"@, params.jval()), r),
        r matches Err(e) ==> !(e matches BridgeError::Encode { .. }),
        r matches Ok(x) ==> exists|s: Seq<char>| p_json(s, 0) == Some(
            (#[trigger] x.jval(), s.len() as int),
        ),
{
    let request = QueryRequest::Custom(StructUmeeQuery::metoken_parameters(params));
    let ghost greq = custom_request("metoken_parameters"@, params.jval());
    proof {
        assert(request.jval() =~~= greq);
    }
    let chained = query_chain(host, &request);
    match chained {
        Err(e) => {
            proof {
                let (w, o) = choose|w: String, o: HostResult|
                    {
                        &&& w@ == jenc(request.jval())
                        &&& #[trigger] call_ensures(*host, (w,), o)
                        &&& Err::<Vec<u8>, BridgeError>(e) == spec_classify(o)
                    };
                assert(spec_bridge_result::<MetokenParametersResponse>(o, Err::<MetokenParametersResponse, BridgeError>(e)));
                assert(call_ensures(*host, (w,), o) && w@ == jenc(greq));
            }
            Err(e)
        },
        Ok(data) => {
            let ghost gdata = data;
            let r2 = decode_response::<MetokenParametersResponse>(data);
            proof {
                let (w, o) = choose|w: String, o: HostResult|
                    {
                        &&& w@ == jenc(request.jval())
                        &&& #[trigger] call_ensures(*host, (w,), o)
                        &&& Ok::<Vec<u8>, BridgeError>(gdata) == spec_classify(o)
                    };
                assert(spec_bridge_result::<MetokenParametersResponse>(o, r2));
                assert(call_ensures(*host, (w,), o) && w@ == jenc(greq));
            }
            r2
        },
    }
}

/// Builds a `metoken_indexes` request, carries it across the host boundary
/// once, and decodes the typed response; the result follows exactly from
/// the outcome the host returned to the request's canonical text.
pub fn query_metoken_indexes<F: Fn(String) -> HostResult>(
    host: &F,
    params: MetokenIndexesParams,
) -> (r: Result<MetokenIndexesResponse, BridgeError>)
    requires
        forall|s: String| call_requires(*host, (s,)),
    ensures
        spec_bridged::<MetokenIndexesResponse, F>(*host, custom_request("metoken_indexes"@, params.jval()), r),
        r matches Err(e) ==> !(e matches BridgeError::Encode { .. }),
        r matches Ok(x) ==> exists|s: Seq<char>| p_json(s, 0) == Some(
            (#[trigger] x.jval(), s.len() as int),
        ),
{
    let request = QueryRequest::Custom(StructUmeeQuery::metoken_indexes(params));
    let ghost greq = custom_request("metoken_indexes"@, params.jval());
    proof {
        assert(request.jval() =~~= greq);
    }
    let chained = query_chain(host, &request);
    match chained {
        Err(e) => {
            proof {
                let (w, o) = choose|w: String, o: HostResult|
                    {
                        &&& w@ == jenc(request.jval())
                        &&& #[trigger] call_ensures(*host, (w,), o)
                        &&& Err::<Vec<u8>, BridgeError>(e) == spec_classify(o)
                    };
                assert(spec_bridge_result::<MetokenIndexesResponse>(o, Err::<MetokenIndexesResponse, BridgeError>(e)));
                assert(call_ensures(*host, (w,), o) && w@ == jenc(greq));
            }
            Err(e)
        },
        Ok(data) => {
            let ghost gdata = data;
            let r2 = decode_response::<MetokenIndexesResponse>(data);
            proof {
                let (w, o) = choose|w: String, o: HostResult|
                    {
                        &&& w@ == jenc(request.jval())
                        &&& #[trigger] call_ensures(*host, (w,), o)
                        &&& Ok::<Vec<u8>, BridgeError>(gdata) == spec_classify(o)
                    };
                assert(spec_bridge_result::<MetokenIndexesResponse>(o, r2));
                assert(call_ensures(*host, (w,), o) && w@ == jenc(greq));
            }
            r2
        },
    }
}

/// Builds a `metoken_swapfee` request, carries it across the host boundary
/// once, and decodes the typed response; the result follows exactly from
/// the outcome the host returned to the request's canonical text.
pub fn query_metoken_swapfee<F: Fn(String) -> HostResult>(
    host: &F,
    params: MetokenSwapfeeParams,
) -> (r: Result<MetokenSwapfeeResponse, BridgeError>)
    requires
        forall|s: String| call_requires(*host, (s,)),
    ensures
        spec_bridged::<MetokenSwapfeeResponse, F>(*host, custom_request("metoken_swapfee"@, params.jval()), r),
        r matches Err(e) ==> !(e matches BridgeError::Encode { .. }),
        r matches Ok(x) ==> exists|s: Seq<char>| p_json(s, 0) == Some(
            (#[trigger] x.jval(), s.len() as int),
        ),
{
    let request = QueryRequest::Custom(StructUmeeQuery::metoken_swapfee(params));
    let ghost greq = custom_request("metoken_swapfee"@, params.jval());
    proof {
        assert(request.jval() =~~= greq);
    }
    let chained = query_chain(host, &request);
    match chained {
        Err(e) => {
            proof {
                let (w, o) = choose|w: String, o: HostResult|
                    {
                        &&& w@ == jenc(request.jval())
                        &&& #[trigger] call_ensures(*host, (w,), o)
                        &&& Err::<Vec<u8>, BridgeError>(e) == spec_classify(o)
                    };
                assert(spec_bridge_result::<MetokenSwapfeeResponse>(o, Err::<MetokenSwapfeeResponse, BridgeError>(e)));
                assert(call_ensures(*host, (w,), o) && w@ == jenc(greq));
            }
            Err(e)
        },
        Ok(data) => {
            let ghost gdata = data;
            let r2 = decode_response::<MetokenSwapfeeResponse>(data);
            proof {
                let (w, o) = choose|w: String, o: HostResult|
                    {
                        &&& w@ == jenc(request.jval())
                        &&& #[trigger] call_ensures(*host, (w,), o)
                        &&& Ok::<Vec<u8>, BridgeError>(gdata) == spec_classify(o)
                    };
                assert(spec_bridge_result::<MetokenSwapfeeResponse>(o, r2));
                assert(call_ensures(*host, (w,), o) && w@ == jenc(greq));
            }
            r2
        },
    }
}

/// Builds a `metoken_redeemfee` request, carries it across the host boundary
/// once, and decodes the typed response; the result follows exactly from
/// the outcome the host returned to the request's canonical text.
pub fn query_metoken_redeemfee<F: Fn(String) -> HostResult>(
    host: &F,
    params: MetokenRedeemfeeParams,
) -> (r: Result<MetokenRedeemfeeResponse, BridgeError>)
    requires
        forall|s: String| call_requires(*host, (s,)),
    ensures
        spec_bridged::<MetokenRedeemfeeResponse, F>(*host, custom_request("metoken_redeemfee"@, params.jval()), r),
        r matches Err(e) ==> !(e matches BridgeError::Encode { .. }),
        r matches Ok(x) ==> exists|s: Seq<char>| p_json(s, 0) == Some(
            (#[trigger] x.jval(), s.len() as int),
        ),
{
    let request = QueryRequest::Custom(StructUmeeQuery::metoken_redeemfee(params));
    let ghost greq = custom_request("metoken_redeemfee"@, params.jval());
    proof {
        assert(request.jval() =~~= greq);
    }
    let chained = query_chain(host, &request);
    match chained {
        Err(e) => {
            proof {
                let (w, o) = choose|w: String, o: HostResult|
                    {
                        &&& w@ == jenc(request.jval())
                        &&& #[trigger] call_ensures(*host, (w,), o)
                        &&& Err::<Vec<u8>, BridgeError>(e) == spec_classify(o)
                    };
                assert(spec_bridge_result::<MetokenRedeemfeeResponse>(o, Err::<MetokenRedeemfeeResponse, BridgeError>(e)));
                assert(call_ensures(*host, (w,), o) && w@ == jenc(greq));
            }
            Err(e)
        },
        Ok(data) => {
            let ghost gdata = data;
            let r2 = decode_response::<MetokenRedeemfeeResponse>(data);
            proof {
                let (w, o) = choose|w: String, o: HostResult|
                    {
                        &&& w@ == jenc(request.jval())
                        &&& #[trigger] call_ensures(*host, (w,), o)
                        &&& Ok::<Vec<u8>, BridgeError>(gdata) == spec_classify(o)
                    };
                assert(spec_bridge_result::<MetokenRedeemfeeResponse>(o, r2));
                assert(call_ensures(*host, (w,), o) && w@ == jenc(greq));
            }
            r2
        },
    }
}

/// Builds a `metoken_indexbalances` request, carries it across the host boundary
/// once, and decodes the typed response; the result follows exactly from
/// the outcome the host returned to the request's canonical text.
pub fn query_metoken_indexbalances<F: Fn(String) -> HostResult>(
    host: &F,
    params: MetokenIndexbalancesParams,
) -> (r: Result<MetokenIndexbalancesResponse, BridgeError>)
    requires
        forall|s: String| call_requires(*host, (s,)),
    ensures
        spec_bridged::<MetokenIndexbalancesResponse, F>(*host, custom_request("metoken_indexbalances"@, params.jval()), r),
        r matches Err(e) ==> !(e matches BridgeError::Encode { .. }),
        r matches Ok(x) ==> exists|s: Seq<char>| p_json(s, 0) == Some(
            (#[trigger] x.jval(), s.len() as int),
        ),
{
    let request = QueryRequest::Custom(StructUmeeQuery::metoken_indexbalances(params));
    let ghost greq = custom_request("metoken_indexbalances"@, params.jval());
    proof {
        assert(request.jval() =~~= greq);
    }
    let chained = query_chain(host, &request);
    match chained {
        Err(e) => {
            proof {
                let (w, o) = choose|w: String, o: HostResult|
                    {
                        &&& w@ == jenc(request.jval())
                        &&& #[trigger] call_ensures(*host, (w,), o)
                        &&& Err::<Vec<u8>, BridgeError>(e) == spec_classify(o)
                    };
                assert(spec_bridge_result::<MetokenIndexbalancesResponse>(o, Err::<MetokenIndexbalancesResponse, BridgeError>(e)));
                assert(call_ensures(*host, (w,), o) && w@ == jenc(greq));
            }
            Err(e)
        },
        Ok(data) => {
            let ghost gdata = data;
            let r2 = decode_response::<MetokenIndexbalancesResponse>(data);
            proof {
                let (w, o) = choose|w: String, o: HostResult|
                    {
                        &&& w@ == jenc(request.jval())
                        &&& #[trigger] call_ensures(*host, (w,), o)
                        &&& Ok::<Vec<u8>, BridgeError>(gdata) == spec_classify(o)
                    };
                assert(spec_bridge_result::<MetokenIndexbalancesResponse>(o, r2));
                assert(call_ensures(*host, (w,), o) && w@ == jenc(greq));
            }
            r2
        },
    }
}

/// Builds a `metoken_indexprice` request, carries it across the host boundary
/// once, and decodes the typed response; the result follows exactly from
/// the outcome the host returned to the request's canonical text.
pub fn query_metoken_indexprice<F: Fn(String) -> HostResult>(
    host: &F,
    params: MetokenIndexPricesParams,
) -> (r: Result<MetokenIndexPricesResponse, BridgeError>)
    requires
        forall|s: String| call_requires(*host, (s,)),
    ensures
        spec_bridged::<MetokenIndexPricesResponse, F>(*host, custom_request("metoken_indexprice"@, params.jval()), r),
        r matches Err(e) ==> !(e matches BridgeError::Encode { .. }),
        r matches Ok(x) ==> exists|s: Seq<char>| p_json(s, 0) == Some(
            (#[trigger] x.jval(), s.len() as int),
        ),
{
    let request = QueryRequest::Custom(StructUmeeQuery::metoken_indexprice(params));
    let ghost greq = custom_request("metoken_indexprice"@, params.jval());
    proof {
        assert(request.jval() =~~= greq);
    }
    let chained = query_chain(host, &request);
    match chained {
        Err(e) => {
            proof {
                let (w, o) = choose|w: String, o: HostResult|
                    {
                        &&& w@ == jenc(request.jval())
                        &&& #[trigger] call_ensures(*host, (w,), o)
                        &&& Err::<Vec<u8>, BridgeError>(e) == spec_classify(o)
                    };
                assert(spec_bridge_result::<MetokenIndexPricesResponse>(o, Err::<MetokenIndexPricesResponse, BridgeError>(e)));
                assert(call_ensures(*host, (w,), o) && w@ == jenc(greq));
            }
            Err(e)
        },
        Ok(data) => {
            let ghost gdata = data;
            let r2 = decode_response::<MetokenIndexPricesResponse>(data);
            proof {
                let (w, o) = choose|w: String, o: HostResult|
                    {
                        &&& w@ == jenc(request.jval())
                        &&& #[trigger] call_ensures(*host, (w,), o)
                        &&& Ok::<Vec<u8>, BridgeError>(gdata) == spec_classify(o)
                    };
                assert(spec_bridge_result::<MetokenIndexPricesResponse>(o, r2));
                assert(call_ensures(*host, (w,), o) && w@ == jenc(greq));
            }
            r2
        },
    }
}

} // verus!
