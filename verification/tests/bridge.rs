use umee_cosmwasm::base::{Addr, Coin};
use umee_cosmwasm::contract::{
    classify_host_result, decode_response, query_account_balances, query_account_summary,
    query_chain, query_exchange_rates, query_miss_counter, query_umee, HostResult,
};
use umee_cosmwasm::contract_msg::QueryRequest;
use umee_cosmwasm::error::BridgeError;
use umee_cosmwasm::query::StructUmeeQuery;
use umee_cosmwasm::legacy::SuppliedResponse;
use umee_cosmwasm::query::UmeeQuery;
use umee_cosmwasm::query_leverage::{AccountBalancesParams, AccountBalancesResponse, AccountSummaryParams, UmeeQueryLeverage};
use umee_cosmwasm::base::Decimal;
use umee_cosmwasm::query_incentive::{IncentiveProgram, LastRewardTimeResponse};
use umee_cosmwasm::query_oracle::{ExchangeRatesParams, MissCounterParams, MissCounterResponse};
use umee_cosmwasm::record::{decode_wire, encode_wire};
use umee_cosmwasm::token::Token;

fn rates_params() -> ExchangeRatesParams {
    ExchangeRatesParams { denom: "uumee".to_string() }
}

#[test]
fn classification_system_failure() {
    let r = classify_host_result(HostResult::SystemFailure { detail: "no module".to_string() });
    assert_eq!(r, Err(BridgeError::System { detail: "no module".to_string() }));
}

#[test]
fn classification_remote_rejection() {
    let r = classify_host_result(HostResult::RemoteRejection { detail: "rule broken".to_string() });
    assert_eq!(r, Err(BridgeError::Remote { detail: "rule broken".to_string() }));
}

#[test]
fn classification_success() {
    let r = classify_host_result(HostResult::Success { data: vec![1, 2, 3] });
    assert_eq!(r, Ok(vec![1, 2, 3]));
}

#[test]
fn bridge_surfaces_each_host_outcome() {
    let sys = |_request: String| HostResult::SystemFailure { detail: "no module".to_string() };
    match query_exchange_rates(&sys, rates_params()) {
        Err(BridgeError::System { detail }) => assert_eq!(detail, "no module"),
        other => panic!("expected a system error, got {:?}", other),
    }

    let rem = |_request: String| HostResult::RemoteRejection { detail: "rule broken".to_string() };
    match query_exchange_rates(&rem, rates_params()) {
        Err(BridgeError::Remote { detail }) => assert_eq!(detail, "rule broken"),
        other => panic!("expected a remote error, got {:?}", other),
    }

    let ok = |_request: String| HostResult::Success {
        data: br#"{"exchange_rates":[{"denom":"uumee","amount":"1.5"}]}"#.to_vec(),
    };
    let resp = query_exchange_rates(&ok, rates_params()).unwrap();
    assert_eq!(resp.exchange_rates.len(), 1);
    assert_eq!(resp.exchange_rates[0].denom, "uumee");
    assert_eq!(resp.exchange_rates[0].amount.as_str(), "1.5");
}

#[test]
fn bridge_rejects_malformed_success_bytes() {
    let garbled = |_request: String| HostResult::Success { data: b"nonsense".to_vec() };
    match query_exchange_rates(&garbled, rates_params()) {
        Err(BridgeError::Decode { .. }) => {}
        other => panic!("expected a decode error, got {:?}", other),
    }

    // bytes that are not text at all
    let binary = |_request: String| HostResult::Success { data: vec![0xff, 0xfe, 0x00] };
    match query_exchange_rates(&binary, rates_params()) {
        Err(BridgeError::Decode { .. }) => {}
        other => panic!("expected a decode error, got {:?}", other),
    }

    // the right shape for a different query is still a mismatch
    let wrong_shape = |_request: String| HostResult::Success {
        data: br#"{"miss_counter":7}"#.to_vec(),
    };
    match query_exchange_rates(&wrong_shape, rates_params()) {
        Err(BridgeError::Decode { .. }) => {}
        other => panic!("expected a decode error, got {:?}", other),
    }
}

#[test]
fn decode_response_reads_exact_wire_shape() {
    let r: Result<MissCounterResponse, BridgeError> =
        decode_response(br#"{"miss_counter":42}"#.to_vec());
    assert_eq!(r.unwrap().miss_counter, 42);
}

#[test]
fn typed_numeric_response() {
    let ok = |_request: String| HostResult::Success { data: br#"{"miss_counter":42}"#.to_vec() };
    let resp = query_miss_counter(&ok, MissCounterParams {
        validator_addr: Addr::unchecked("val1".to_string()),
    })
    .unwrap();
    assert_eq!(resp.miss_counter, 42);
}

#[test]
fn query_chain_sends_the_canonical_request() {
    // the host sees exactly the canonical wire text of the built request
    let q = StructUmeeQuery::exchange_rates(rates_params());
    let request = QueryRequest::Custom(q);
    let expected = encode_wire(&request);
    let echoing = move |request_text: String| {
        assert_eq!(request_text, r#"{"custom":{"exchange_rates":{"denom":"uumee"}}}"#);
        HostResult::Success { data: request_text.into_bytes() }
    };
    let sent = query_chain(&echoing, &request).unwrap();
    assert_eq!(sent, expected.into_bytes());
}

#[test]
fn supply_scenario_round_trips_through_a_stub_host() {
    // a stub host echoes back the supplied position; the decoded response is
    // exactly the structure it wrote
    let echo = |_request: String| HostResult::Success {
        data: br#"{"supplied":[{"denom":"uumee","amount":"100"}],"collateral":[],"borrowed":[]}"#
            .to_vec(),
    };
    let resp = query_account_balances(&echo, AccountBalancesParams {
        address: Addr::unchecked("addr1".to_string()),
    })
    .unwrap();
    let expected = AccountBalancesResponse {
        supplied: vec![Coin::new(100, "uumee".to_string())],
        collateral: vec![],
        borrowed: vec![],
    };
    assert_eq!(resp, expected);
}

#[test]
fn negative_and_boolean_fields_round_trip() {
    let r: Result<LastRewardTimeResponse, BridgeError> = decode_response(br#"{"time":-5}"#.to_vec());
    assert_eq!(r.unwrap().time, -5);

    let program = IncentiveProgram {
        ID: 3,
        start_time: -1,
        duration: 86400,
        u_token: "u/uumee".to_string(),
        funded: true,
        total_rewards: Coin::new(1000, "uumee".to_string()),
        remaining_rewards: Coin::new(400, "uumee".to_string()),
    };
    let wire = encode_wire(&program);
    assert_eq!(
        wire,
        r#"{"ID":3,"start_time":-1,"duration":86400,"u_token":"u/uumee","funded":true,"total_rewards":{"denom":"uumee","amount":"1000"},"remaining_rewards":{"denom":"uumee","amount":"400"}}"#
    );
    let back: IncentiveProgram = decode_wire(wire.as_str()).unwrap();
    assert_eq!(back, program);
}

#[test]
fn optional_fields_travel_as_null() {
    let d = |t: &str| Decimal::unchecked(t.to_string());
    let token = Token {
        base_denom: Some("uumee".to_string()),
        reserve_factor: d("0.1"),
        collateral_weight: d("0.5"),
        liquidation_threshold: d("0.55"),
        base_borrow_rate: d("0.02"),
        kink_borrow_rate: d("0.2"),
        max_borrow_rate: d("1.0"),
        kink_utilization: d("0.8"),
        liquidation_incentive: d("0.1"),
        symbol_denom: None,
        exponent: 6,
        enable_msg_supply: Some(true),
        enable_msg_borrow: None,
        blacklist: Some(false),
        max_collateral_share: d("1.0"),
        max_supply_utilization: d("0.9"),
        min_collateral_liquidity: d("0.05"),
        max_supply: d("0"),
        historic_medians: 0,
    };
    let wire = encode_wire(&token);
    assert!(wire.contains(r#""symbol_denom":null"#));
    assert!(wire.contains(r#""enable_msg_supply":true"#));
    let back: Token = decode_wire(wire.as_str()).unwrap();
    assert_eq!(back, token);
}

#[test]
fn account_summary_decodes_the_response_type() {
    // the host answers with the account totals; the result is the summary
    // response, not an echo of the request
    let host = |_request: String| HostResult::Success {
        data: br#"{"supplied_value":"10","collateral_value":"8","borrowed_value":"3","borrow_limit":"5","liquidation_threshold":"6"}"#
            .to_vec(),
    };
    let resp = query_account_summary(&host, AccountSummaryParams {
        address: Addr::unchecked("addr1".to_string()),
    })
    .unwrap();
    assert_eq!(resp.supplied_value.as_str(), "10");
    assert_eq!(resp.borrow_limit.as_str(), "5");
}

#[test]
fn routed_query_returns_the_encoded_typed_response() {
    let host = |_request: String| HostResult::Success { data: br#"{"miss_counter":9}"#.to_vec() };
    let msg = UmeeQuery::Oracle(umee_cosmwasm::query_oracle::UmeeQueryOracle::MissCounter(
        MissCounterParams { validator_addr: Addr::unchecked("val1".to_string()) },
    ));
    let out = query_umee(&host, msg).unwrap();
    assert_eq!(out, r#"{"miss_counter":9}"#);

    let failing = |_request: String| HostResult::RemoteRejection { detail: "refused".to_string() };
    let msg = UmeeQuery::Leverage(UmeeQueryLeverage::AccountBalances(AccountBalancesParams {
        address: Addr::unchecked("addr1".to_string()),
    }));
    match query_umee(&failing, msg) {
        Err(BridgeError::Remote { detail }) => assert_eq!(detail, "refused"),
        other => panic!("expected a remote error, got {:?}", other),
    }
}

#[test]
fn supplied_echo_decodes_to_the_equal_structure() {
    // the earlier schema's supplied response: an echoed position decodes to
    // exactly the structure the stub wrote
    let echoed: SuppliedResponse =
        decode_wire(r#"{"supplied":[{"denom":"uumee","amount":"100"}]}"#).unwrap();
    let expected = SuppliedResponse { supplied: vec![Coin::new(100, "uumee".to_string())] };
    assert_eq!(echoed, expected);
}
