use umee_cosmwasm::base::{Addr, Coin};
use umee_cosmwasm::msg::{msg_chain, StructUmeeMsg};
use umee_cosmwasm::msg_leverage::{LiquidateParams, MsgMaxWithDrawParams, SupplyParams, WithdrawParams};
use umee_cosmwasm::query::StructUmeeQuery;
use umee_cosmwasm::query_leverage::MarketSummaryParams;
use umee_cosmwasm::query_oracle::ExchangeRatesParams;
use umee_cosmwasm::record::{decode_wire, encode_wire};
use umee_cosmwasm::response::CosmosMsg;

fn supply_env(supplier: &str, amount: u128, denom: &str) -> StructUmeeMsg {
    let params = SupplyParams {
        supplier: Addr::unchecked(supplier.to_string()),
        asset: Coin::new(amount, denom.to_string()),
    };
    let res = StructUmeeMsg::supply(params).unwrap();
    let CosmosMsg::Custom(env) = res.messages.into_iter().next().unwrap();
    env
}

#[test]
fn supply_envelope_wire_text() {
    let env = supply_env("addr1", 100, "uumee");
    let wire = encode_wire(&env);
    assert_eq!(
        wire,
        r#"{"assigned_msg":"supply","supply":{"supplier":"addr1","asset":{"denom":"uumee","amount":"100"}}}"#
    );
}

#[test]
fn msg_envelope_round_trip() {
    let env = supply_env("addr1", 100, "uumee");
    let wire = encode_wire(&env);
    let back: StructUmeeMsg = decode_wire(wire.as_str()).unwrap();
    assert_eq!(back, env);
}

#[test]
fn msg_envelope_round_trip_with_escapes() {
    // addresses are carried verbatim, so quoting and control characters
    // must survive the wire
    let awkward = "a\"b\\c\nd\te\u{1}";
    let env = supply_env(awkward, 7, "uumee");
    let wire = encode_wire(&env);
    let back: StructUmeeMsg = decode_wire(wire.as_str()).unwrap();
    assert_eq!(back, env);
}

#[test]
fn msg_envelope_round_trip_every_kind() {
    let a = || Addr::unchecked("addr1".to_string());
    let c = || Coin::new(5, "uumee".to_string());
    let results = vec![
        StructUmeeMsg::supply(SupplyParams { supplier: a(), asset: c() }).unwrap(),
        StructUmeeMsg::withdraw(WithdrawParams { supplier: a(), asset: c() }).unwrap(),
        StructUmeeMsg::max_withdraw(MsgMaxWithDrawParams { supplier: a(), denom: "uumee".to_string() }).unwrap(),
        StructUmeeMsg::liquidate(LiquidateParams {
            liquidator: a(),
            borrower: Addr::unchecked("addr2".to_string()),
            repayment: c(),
            reward: c(),
        }).unwrap(),
    ];
    for res in results {
        let CosmosMsg::Custom(env) = res.messages.into_iter().next().unwrap();
        let wire = encode_wire(&env);
        let back: StructUmeeMsg = decode_wire(wire.as_str()).unwrap();
        assert_eq!(back, env);
    }
}

#[test]
fn msg_envelope_single_slot() {
    // exactly one payload slot, named by the discriminant's canonical name
    let env = supply_env("addr1", 100, "uumee");
    assert_eq!(env.assigned_str(), "supply");
    assert!(env.valid());
    let wire = encode_wire(&env);
    assert_eq!(wire.matches("\"supply\":").count(), 1);
    assert_eq!(wire.matches("\"withdraw\":").count(), 0);
}

#[test]
fn msg_chain_wraps_the_envelope() {
    let env = supply_env("addr1", 100, "uumee");
    let res = msg_chain(env.clone()).unwrap();
    assert_eq!(res.attributes.len(), 1);
    assert_eq!(res.attributes[0].key, "method");
    assert_eq!(res.attributes[0].value, "supply");
    assert_eq!(res.messages, vec![CosmosMsg::Custom(env)]);
}

#[test]
fn query_envelope_wire_text() {
    let q = StructUmeeQuery::exchange_rates(ExchangeRatesParams { denom: "uumee".to_string() });
    assert_eq!(encode_wire(&q), r#"{"exchange_rates":{"denom":"uumee"}}"#);
    let q = StructUmeeQuery::market_summary(MarketSummaryParams { denom: "uumee".to_string() });
    assert_eq!(encode_wire(&q), r#"{"market_summary":{"denom":"uumee"}}"#);
}

#[test]
fn query_envelope_round_trip() {
    let q = StructUmeeQuery::exchange_rates(ExchangeRatesParams { denom: "uumee".to_string() });
    let wire = encode_wire(&q);
    let back: StructUmeeQuery = decode_wire(wire.as_str()).unwrap();
    assert_eq!(back, q);
}

#[test]
fn query_envelope_rejects_unknown_slot() {
    let back: Option<StructUmeeQuery> = decode_wire(r#"{"bogus":{}}"#);
    assert!(back.is_none());
}

#[test]
fn msg_envelope_rejects_mismatched_slot() {
    // discriminant says supply but the slot is keyed withdraw
    let back: Option<StructUmeeMsg> =
        decode_wire(r#"{"assigned_msg":"supply","withdraw":{"supplier":"a","asset":{"denom":"u","amount":"1"}}}"#);
    assert!(back.is_none());
    // unknown discriminant
    let back: Option<StructUmeeMsg> = decode_wire(r#"{"assigned_msg":"mint","mint":{}}"#);
    assert!(back.is_none());
}

#[test]
fn coin_decoding_is_canonical() {
    let good: Option<Coin> = decode_wire(r#"{"denom":"uumee","amount":"100"}"#);
    assert_eq!(good, Some(Coin::new(100, "uumee".to_string())));
    // leading zeros are not the canonical digits of any amount
    let padded: Option<Coin> = decode_wire(r#"{"denom":"uumee","amount":"007"}"#);
    assert!(padded.is_none());
    // fields out of order are not the canonical record of any coin
    let swapped: Option<Coin> = decode_wire(r#"{"amount":"100","denom":"uumee"}"#);
    assert!(swapped.is_none());
    // non-digits never form an amount
    let junk: Option<Coin> = decode_wire(r#"{"denom":"uumee","amount":"1x0"}"#);
    assert!(junk.is_none());
}
