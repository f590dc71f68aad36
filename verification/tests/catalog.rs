use umee_cosmwasm::base::{Addr, Coin};
use umee_cosmwasm::legacy::{msg_code_valid, msg_name, query_code_valid, query_name};
use umee_cosmwasm::legacy::{BorrowedParams, NumericUmeeMsg, NumericUmeeQuery};
use umee_cosmwasm::msg_leverage::{MsgTypes, SupplyParams};
use umee_cosmwasm::record::{decode_wire, encode_wire};

#[test]
fn unknown_discriminant_is_unrecognized() {
    assert_eq!(msg_name(0), "unrecognized_msg");
    assert_eq!(msg_name(7), "unrecognized_msg");
    assert_eq!(msg_name(999), "unrecognized_msg");
    assert!(!msg_code_valid(0));
    assert!(!msg_code_valid(7));
    assert!(!msg_code_valid(999));

    // the gap between the leverage and oracle ranges stays reserved
    assert_eq!(query_name(0), "unrecognized_msg");
    assert_eq!(query_name(17), "unrecognized_msg");
    assert_eq!(query_name(22), "unrecognized_msg");
    assert_eq!(query_name(31), "unrecognized_msg");
    assert!(!query_code_valid(17));
    assert!(!query_code_valid(31));
}

#[test]
fn known_codes_are_valid() {
    for code in 1u16..=6 {
        assert!(msg_code_valid(code));
    }
    for code in 1u16..=16 {
        assert!(query_code_valid(code));
    }
    for code in 23u16..=30 {
        assert!(query_code_valid(code));
    }
}

#[test]
fn frozen_message_table_is_stable() {
    // the historical code assignments, frozen: appending new kinds must
    // never change these pairs
    assert_eq!(msg_name(1), "supply");
    assert_eq!(msg_name(2), "withdraw");
    assert_eq!(msg_name(3), "collateralize");
    assert_eq!(msg_name(4), "decollateralize");
    assert_eq!(msg_name(5), "borrow");
    assert_eq!(msg_name(6), "repay");
}

#[test]
fn frozen_query_table_is_stable() {
    assert_eq!(query_name(1), "borrowed");
    assert_eq!(query_name(2), "exchange_rates");
    assert_eq!(query_name(3), "registered_tokens");
    assert_eq!(query_name(4), "leverage_parameters");
    assert_eq!(query_name(5), "borrowed_value");
    assert_eq!(query_name(6), "supplied");
    assert_eq!(query_name(7), "supplied_value");
    assert_eq!(query_name(8), "available_borrow");
    assert_eq!(query_name(9), "borrow_apy");
    assert_eq!(query_name(10), "supply_apy");
    assert_eq!(query_name(11), "market_size");
    assert_eq!(query_name(12), "token_market_size");
    assert_eq!(query_name(13), "reserve_amount");
    assert_eq!(query_name(14), "collateral");
    assert_eq!(query_name(15), "collateral_value");
    assert_eq!(query_name(16), "exchange_rate");
    assert_eq!(query_name(23), "active_exchange_rates");
    assert_eq!(query_name(24), "feeder_delegation");
    assert_eq!(query_name(25), "miss_counter");
    assert_eq!(query_name(26), "aggregate_prevote");
    assert_eq!(query_name(27), "aggregate_prevotes");
    assert_eq!(query_name(28), "aggregate_vote");
    assert_eq!(query_name(29), "aggregate_votes");
    assert_eq!(query_name(30), "oracle_params");
}

#[test]
fn current_catalog_names() {
    assert_eq!(MsgTypes::AssignedMsgSupply.name(), "supply");
    assert_eq!(MsgTypes::AssignedMsgWithdraw.name(), "withdraw");
    assert_eq!(MsgTypes::AssignedMsgCollateralize.name(), "collateralize");
    assert_eq!(MsgTypes::AssignedMsgDecollateralize.name(), "decollateralize");
    assert_eq!(MsgTypes::AssignedMsgBorrow.name(), "borrow");
    assert_eq!(MsgTypes::AssignedMsgMaxBorrow.name(), "max_borrow");
    assert_eq!(MsgTypes::AssignedMsgRepay.name(), "repay");
    assert_eq!(MsgTypes::AssignedMsgLiquidate.name(), "liquidate");
    assert_eq!(MsgTypes::AssignedMsgSupplyCollateralize.name(), "supply_collateral");
    assert_eq!(MsgTypes::AssignedMsgMaxWithdraw.name(), "max_withdraw");
}

#[test]
fn numeric_envelope_wire_text() {
    let m = NumericUmeeMsg::supply(SupplyParams {
        supplier: Addr::unchecked("addr1".to_string()),
        asset: Coin::new(100, "uumee".to_string()),
    });
    assert!(m.valid());
    assert_eq!(m.assigned_str(), "supply");
    assert_eq!(
        m.encode(),
        r#"{"assigned_msg":1,"supply":{"supplier":"addr1","asset":{"denom":"uumee","amount":"100"}}}"#
    );

    let q = NumericUmeeQuery::borrowed(BorrowedParams { address: Addr::unchecked("addr1".to_string()) });
    assert!(q.valid());
    assert_eq!(q.assigned_str(), "borrowed");
    assert_eq!(q.encode(), r#"{"assigned_query":1,"borrowed":{"address":"addr1"}}"#);
}

#[test]
fn numeric_envelope_round_trip() {
    let m = NumericUmeeMsg::supply(SupplyParams {
        supplier: Addr::unchecked("addr1".to_string()),
        asset: Coin::new(100, "uumee".to_string()),
    });
    let wire = encode_wire(&m);
    let back: NumericUmeeMsg = decode_wire(wire.as_str()).unwrap();
    assert_eq!(back, m);

    let q = NumericUmeeQuery::borrowed(BorrowedParams { address: Addr::unchecked("addr1".to_string()) });
    let wire = encode_wire(&q);
    let back: NumericUmeeQuery = decode_wire(wire.as_str()).unwrap();
    assert_eq!(back, q);

    // a code and a slot that do not belong together decode to nothing
    let mixed: Option<NumericUmeeMsg> =
        decode_wire(r#"{"assigned_msg":2,"supply":{"supplier":"a","asset":{"denom":"u","amount":"1"}}}"#);
    assert!(mixed.is_none());
    // a code outside the catalog decodes to nothing
    let unknown: Option<NumericUmeeMsg> = decode_wire(r#"{"assigned_msg":9,"mint":{}}"#);
    assert!(unknown.is_none());
}
