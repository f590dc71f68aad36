use umee_cosmwasm::base::{Addr, Coin};
use umee_cosmwasm::contract::{execute, instantiate, query, try_change_owner, HostResult, MessageInfo};
use umee_cosmwasm::contract_msg::{ExecuteMsg, InstantiateMsg, OwnerResponse, QueryMsg};
use umee_cosmwasm::error::ContractError;
use umee_cosmwasm::record::decode_wire;

fn info(sender: &str, funds: Vec<Coin>) -> MessageInfo {
    MessageInfo { sender: Addr::unchecked(sender.to_string()), funds }
}

fn coins(amount: u128, denom: &str) -> Vec<Coin> {
    vec![Coin::new(amount, denom.to_string())]
}

fn no_host(_request: String) -> HostResult {
    HostResult::SystemFailure { detail: "no host in this test".to_string() }
}

#[test]
fn proper_initialization() {
    let msg = InstantiateMsg {};
    let info = info("creator", coins(1000, "earth"));

    let (state, res) = instantiate(info, msg);
    assert_eq!(0, res.messages.len());

    // it worked, let's query the state
    let res = query(&state, &no_host, QueryMsg::GetOwner {}).unwrap();
    let value: OwnerResponse = decode_wire(res.as_str()).unwrap();
    assert_eq!("creator", value.owner.as_str());
}

#[test]
fn change_owner() {
    let first_owner = "creator";
    let msg = InstantiateMsg {};
    let (state, _res) = instantiate(info(first_owner, coins(2, "token")), msg);

    let res = query(&state, &no_host, QueryMsg::GetOwner {}).unwrap();
    let value: OwnerResponse = decode_wire(res.as_str()).unwrap();
    assert_eq!(first_owner, value.owner.as_str());

    let new_owner = "new_owner";

    // only the original creator can change the owner
    let auth_info = info(new_owner, coins(2, "token"));
    let msg = ExecuteMsg::ChangeOwner { new_owner: Addr::unchecked(new_owner.to_string()) };
    let res = execute(state.clone(), auth_info, msg);
    match res {
        Err(ContractError::Unauthorized) => {}
        _ => panic!("Must return unauthorized error"),
    }

    let auth_info = info(first_owner, coins(2, "token"));
    let msg = ExecuteMsg::ChangeOwner { new_owner: Addr::unchecked(new_owner.to_string()) };
    let (state, _res) = execute(state, auth_info, msg).unwrap();

    let res = query(&state, &no_host, QueryMsg::GetOwner {}).unwrap();
    let value: OwnerResponse = decode_wire(res.as_str()).unwrap();
    assert_eq!(new_owner, value.owner.as_str());
}

#[test]
fn owner_transition_refuses_other_callers() {
    let (state, _res) = instantiate(info("a", vec![]), InstantiateMsg {});
    let refused = try_change_owner(
        state.clone(),
        info("b", vec![]),
        Addr::unchecked("c".to_string()),
    );
    assert_eq!(refused, Err(ContractError::Unauthorized));

    let (state, _res) = try_change_owner(state, info("a", vec![]), Addr::unchecked("c".to_string()))
        .unwrap();
    assert_eq!("c", state.owner.as_str());
}

#[test]
fn instantiate_records_owner_attribute() {
    let (_state, res) = instantiate(info("creator", vec![]), InstantiateMsg {});
    assert_eq!(res.attributes.len(), 2);
    assert_eq!(res.attributes[0].key, "method");
    assert_eq!(res.attributes[0].value, "instantiate");
    assert_eq!(res.attributes[1].key, "owner");
    assert_eq!(res.attributes[1].value, "creator");
}

#[test]
fn owner_wire_shape() {
    let (state, _res) = instantiate(info("creator", vec![]), InstantiateMsg {});
    let out = query(&state, &no_host, QueryMsg::GetOwner {}).unwrap();
    assert_eq!(out, r#"{"owner":"creator"}"#);
}
