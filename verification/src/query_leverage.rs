//! Queries of the leverage module group.
use vstd::prelude::*;

use crate::bad_debt::BadDebt;
use crate::base::{Addr, Coin, Decimal256};
use crate::leverage_parameters::LeverageParameters;
use crate::record::WireRecord;
use crate::token::Token;
use crate::wire::{json_wf, str_eq, JsonEntry, JsonSpec, JsonVal};

verus! {

broadcast use vstd::string::group_string_axioms;

/// The catalog of leverage query kinds, in their stable order.
#[derive(Clone, Debug, PartialEq, Eq)]
pub enum LeverageQueries {
    AssignedQueryLeverageParams,
    AssignedQueryRegisteredTokens,
    AssignedQueryMarketSummary,
    AssignedQueryAccountBalances,
    AssignedQueryAccountSummary,
    AssignedQueryLiquidationTargets,
    AssignedQueryBadDebts,
    AssignedQueryMaxWithdraw,
}

/// Asks for the leverage module group's parameters.
#[derive(Clone, Debug, PartialEq, Eq)]
pub struct LeverageParametersParams {
}
impl WireRecord for LeverageParametersParams {
    open spec fn jval(self) -> JsonSpec {
        JsonSpec::Obj(Seq::empty())
    }

    proof fn jval_wf(self) {
    }

    fn build_jval(&self) -> (r: JsonVal) {
        let r = JsonVal::Obj(Vec::new());
        proof {
            assert(r.dv()->Obj_0 =~~= self.jval()->Obj_0);
            assert(r.dv() =~~= self.jval());
        }
        r
    }

    fn from_jval(v: &JsonVal) -> (r: Option<LeverageParametersParams>) {
        match v {
            JsonVal::Obj(entries) => {
                if entries.len() == 0 {
                    let x = LeverageParametersParams {  };
                    proof {
                        assert(x.jval()->Obj_0 =~~= v.dv()->Obj_0);
                        assert(x.jval() =~~= v.dv());
                    }
                    Some(x)
                } else {
                    proof {
                        assert forall|x: LeverageParametersParams| v.dv() != #[trigger] x.jval() by {
                            assert(x.jval()->Obj_0.len() == 0);
                            assert(v.dv()->Obj_0.len() == entries@.len());
                        }
                    }
                    None
                }
            },
            _ => None,
        }
    }
}
/// The leverage module group's parameters.
#[derive(Clone, Debug, PartialEq, Eq)]
pub struct LeverageParametersResponse {
    pub params: LeverageParameters,
}
impl WireRecord for LeverageParametersResponse {
    open spec fn jval(self) -> JsonSpec {
        JsonSpec::Obj(
            seq![
                ("params"@, self.params.jval()),
            ],
        )
    }

    proof fn jval_wf(self) {
        self.params.jval_wf();
        assert forall|k: int| 0 <= k < self.jval()->Obj_0.len() implies json_wf(
            #[trigger] self.jval()->Obj_0[k].1,
        ) by {
            if k == 0 {
                assert(json_wf(self.jval()->Obj_0[0].1));
            }
        }
    }

    fn build_jval(&self) -> (r: JsonVal) {
        let mut entries: Vec<JsonEntry> = Vec::new();
        entries.push(JsonEntry { key: String::from_str("params"), val: self.params.build_jval() });
        let ghost ges = entries@;
        let r = JsonVal::Obj(entries);
        proof {
            let dvs = r.dv()->Obj_0;
            assert(dvs.len() == 1);
            assert(dvs[0] == (ges[0].key@, ges[0].val.dv()));
            assert(r.dv()->Obj_0 =~~= self.jval()->Obj_0);
            assert(r.dv() =~~= self.jval());
            assert(ges[0].val.wf());
        }
        r
    }

    fn from_jval(v: &JsonVal) -> (r: Option<LeverageParametersResponse>) {
        match v {
            JsonVal::Obj(entries) => {
                let shape = entries.len() == 1 && str_eq(entries[0].key.as_str(), "params");
                proof {
                    let dvs = v.dv()->Obj_0;
                    assert(dvs.len() == entries@.len());
                    if entries@.len() == 1 {
                        assert(dvs[0] == (entries@[0].key@, entries@[0].val.dv()));
                    }
                }
                if shape {
                    let g0: Option<LeverageParameters> = WireRecord::from_jval(&entries[0].val);
                    match (g0) {
                        (Some(h0)) => {
                            let x = LeverageParametersResponse { params: h0 };
                            proof {
                                assert(x.jval()->Obj_0 =~~= v.dv()->Obj_0);
                                assert(x.jval() =~~= v.dv());
                            }
                            Some(x)
                        },
                        _ => {
                            proof {
                                assert forall|x: LeverageParametersResponse| v.dv() != #[trigger] x.jval() by {
                                    if v.dv() == x.jval() {
                                        assert(v.dv()->Obj_0[0].1 == x.params.jval());
                                    }
                                }
                            }
                            None
                        },
                    }
                } else {
                    proof {
                        assert forall|x: LeverageParametersResponse| v.dv() != #[trigger] x.jval() by {
                            if v.dv() == x.jval() {
                                assert(v.dv()->Obj_0.len() == 1);
                                assert(v.dv()->Obj_0[0].0 == "params"@);
                            }
                        }
                    }
                    None
                }
            },
            _ => None,
        }
    }
}
/// Asks for every registered token.
#[derive(Clone, Debug, PartialEq, Eq)]
pub struct RegisteredTokensParams {
}
impl WireRecord for RegisteredTokensParams {
    open spec fn jval(self) -> JsonSpec {
        JsonSpec::Obj(Seq::empty())
    }

    proof fn jval_wf(self) {
    }

    fn build_jval(&self) -> (r: JsonVal) {
        let r = JsonVal::Obj(Vec::new());
        proof {
            assert(r.dv()->Obj_0 =~~= self.jval()->Obj_0);
            assert(r.dv() =~~= self.jval());
        }
        r
    }

    fn from_jval(v: &JsonVal) -> (r: Option<RegisteredTokensParams>) {
        match v {
            JsonVal::Obj(entries) => {
                if entries.len() == 0 {
                    let x = RegisteredTokensParams {  };
                    proof {
                        assert(x.jval()->Obj_0 =~~= v.dv()->Obj_0);
                        assert(x.jval() =~~= v.dv());
                    }
                    Some(x)
                } else {
                    proof {
                        assert forall|x: RegisteredTokensParams| v.dv() != #[trigger] x.jval() by {
                            assert(x.jval()->Obj_0.len() == 0);
                            assert(v.dv()->Obj_0.len() == entries@.len());
                        }
                    }
                    None
                }
            },
            _ => None,
        }
    }
}
/// Every registered token.
#[derive(Clone, Debug, PartialEq, Eq)]
pub struct RegisteredTokensResponse {
    pub registry: Vec<Token>,
}
impl WireRecord for RegisteredTokensResponse {
    open spec fn jval(self) -> JsonSpec {
        JsonSpec::Obj(
            seq![
                ("registry"@, self.registry.jval()),
            ],
        )
    }

    proof fn jval_wf(self) {
        self.registry.jval_wf();
        assert forall|k: int| 0 <= k < self.jval()->Obj_0.len() implies json_wf(
            #[trigger] self.jval()->Obj_0[k].1,
        ) by {
            if k == 0 {
                assert(json_wf(self.jval()->Obj_0[0].1));
            }
        }
    }

    fn build_jval(&self) -> (r: JsonVal) {
        let mut entries: Vec<JsonEntry> = Vec::new();
        entries.push(JsonEntry { key: String::from_str("registry"), val: self.registry.build_jval() });
        let ghost ges = entries@;
        let r = JsonVal::Obj(entries);
        proof {
            let dvs = r.dv()->Obj_0;
            assert(dvs.len() == 1);
            assert(dvs[0] == (ges[0].key@, ges[0].val.dv()));
            assert(r.dv()->Obj_0 =~~= self.jval()->Obj_0);
            assert(r.dv() =~~= self.jval());
            assert(ges[0].val.wf());
        }
        r
    }

    fn from_jval(v: &JsonVal) -> (r: Option<RegisteredTokensResponse>) {
        match v {
            JsonVal::Obj(entries) => {
                let shape = entries.len() == 1 && str_eq(entries[0].key.as_str(), "registry");
                proof {
                    let dvs = v.dv()->Obj_0;
                    assert(dvs.len() == entries@.len());
                    if entries@.len() == 1 {
                        assert(dvs[0] == (entries@[0].key@, entries@[0].val.dv()));
                    }
                }
                if shape {
                    let g0: Option<Vec<Token>> = WireRecord::from_jval(&entries[0].val);
                    match (g0) {
                        (Some(h0)) => {
                            let x = RegisteredTokensResponse { registry: h0 };
                            proof {
                                assert(x.jval()->Obj_0 =~~= v.dv()->Obj_0);
                                assert(x.jval() =~~= v.dv());
                            }
                            Some(x)
                        },
                        _ => {
                            proof {
                                assert forall|x: RegisteredTokensResponse| v.dv() != #[trigger] x.jval() by {
                                    if v.dv() == x.jval() {
                                        assert(v.dv()->Obj_0[0].1 == x.registry.jval());
                                    }
                                }
                            }
                            None
                        },
                    }
                } else {
                    proof {
                        assert forall|x: RegisteredTokensResponse| v.dv() != #[trigger] x.jval() by {
                            if v.dv() == x.jval() {
                                assert(v.dv()->Obj_0.len() == 1);
                                assert(v.dv()->Obj_0[0].0 == "registry"@);
                            }
                        }
                    }
                    None
                }
            },
            _ => None,
        }
    }
}
/// Asks for one denomination's market conditions.
#[derive(Clone, Debug, PartialEq, Eq)]
pub struct MarketSummaryParams {
    pub denom: String,
}
impl WireRecord for MarketSummaryParams {
    open spec fn jval(self) -> JsonSpec {
        JsonSpec::Obj(
            seq![
                ("denom"@, self.denom.jval()),
            ],
        )
    }

    proof fn jval_wf(self) {
        self.denom.jval_wf();
        assert forall|k: int| 0 <= k < self.jval()->Obj_0.len() implies json_wf(
            #[trigger] self.jval()->Obj_0[k].1,
        ) by {
            if k == 0 {
                assert(json_wf(self.jval()->Obj_0[0].1));
            }
        }
    }

    fn build_jval(&self) -> (r: JsonVal) {
        let mut entries: Vec<JsonEntry> = Vec::new();
        entries.push(JsonEntry { key: String::from_str("denom"), val: self.denom.build_jval() });
        let ghost ges = entries@;
        let r = JsonVal::Obj(entries);
        proof {
            let dvs = r.dv()->Obj_0;
            assert(dvs.len() == 1);
            assert(dvs[0] == (ges[0].key@, ges[0].val.dv()));
            assert(r.dv()->Obj_0 =~~= self.jval()->Obj_0);
            assert(r.dv() =~~= self.jval());
            assert(ges[0].val.wf());
        }
        r
    }

    fn from_jval(v: &JsonVal) -> (r: Option<MarketSummaryParams>) {
        match v {
            JsonVal::Obj(entries) => {
                let shape = entries.len() == 1 && str_eq(entries[0].key.as_str(), "denom");
                proof {
                    let dvs = v.dv()->Obj_0;
                    assert(dvs.len() == entries@.len());
                    if entries@.len() == 1 {
                        assert(dvs[0] == (entries@[0].key@, entries@[0].val.dv()));
                    }
                }
                if shape {
                    let g0: Option<String> = WireRecord::from_jval(&entries[0].val);
                    match (g0) {
                        (Some(h0)) => {
                            let x = MarketSummaryParams { denom: h0 };
                            proof {
                                assert(x.jval()->Obj_0 =~~= v.dv()->Obj_0);
                                assert(x.jval() =~~= v.dv());
                            }
                            Some(x)
                        },
                        _ => {
                            proof {
                                assert forall|x: MarketSummaryParams| v.dv() != #[trigger] x.jval() by {
                                    if v.dv() == x.jval() {
                                        assert(v.dv()->Obj_0[0].1 == x.denom.jval());
                                    }
                                }
                            }
                            None
                        },
                    }
                } else {
                    proof {
                        assert forall|x: MarketSummaryParams| v.dv() != #[trigger] x.jval() by {
                            if v.dv() == x.jval() {
                                assert(v.dv()->Obj_0.len() == 1);
                                assert(v.dv()->Obj_0[0].0 == "denom"@);
                            }
                        }
                    }
                    None
                }
            },
            _ => None,
        }
    }
}
/// One denomination's borrowing and supplying conditions.
#[derive(Clone, Debug, PartialEq, Eq)]
pub struct MarketSummaryResponse {
    pub symbol_denom: String,
    pub exponent: u32,
    pub oracle_price: Decimal256,
    pub utoken_exchange_rate: Decimal256,
    pub supply_apy: Decimal256,
    pub borrow_apy: Decimal256,
    pub supplied: Decimal256,
    pub reserved: Decimal256,
    pub collateral: Decimal256,
    pub borrowed: Decimal256,
    pub liquidity: Decimal256,
    pub maximum_borrow: Decimal256,
    pub maximum_collateral: Decimal256,
    pub minimum_liquidity: Decimal256,
    pub utoken_supply: Decimal256,
    pub available_borrow: Decimal256,
    pub available_withdraw: Decimal256,
    pub available_collateralize: Decimal256,
}
impl WireRecord for MarketSummaryResponse {
    open spec fn jval(self) -> JsonSpec {
        JsonSpec::Obj(
            seq![
                ("symbol_denom"@, self.symbol_denom.jval()),
                ("exponent"@, self.exponent.jval()),
                ("oracle_price"@, self.oracle_price.jval()),
                ("utoken_exchange_rate"@, self.utoken_exchange_rate.jval()),
                ("supply_apy"@, self.supply_apy.jval()),
                ("borrow_apy"@, self.borrow_apy.jval()),
                ("supplied"@, self.supplied.jval()),
                ("reserved"@, self.reserved.jval()),
                ("collateral"@, self.collateral.jval()),
                ("borrowed"@, self.borrowed.jval()),
                ("liquidity"@, self.liquidity.jval()),
                ("maximum_borrow"@, self.maximum_borrow.jval()),
                ("maximum_collateral"@, self.maximum_collateral.jval()),
                ("minimum_liquidity"@, self.minimum_liquidity.jval()),
                ("utoken_supply"@, self.utoken_supply.jval()),
                ("available_borrow"@, self.available_borrow.jval()),
                ("available_withdraw"@, self.available_withdraw.jval()),
                ("available_collateralize"@, self.available_collateralize.jval()),
            ],
        )
    }

    proof fn jval_wf(self) {
        self.symbol_denom.jval_wf();
        self.exponent.jval_wf();
        self.oracle_price.jval_wf();
        self.utoken_exchange_rate.jval_wf();
        self.supply_apy.jval_wf();
        self.borrow_apy.jval_wf();
        self.supplied.jval_wf();
        self.reserved.jval_wf();
        self.collateral.jval_wf();
        self.borrowed.jval_wf();
        self.liquidity.jval_wf();
        self.maximum_borrow.jval_wf();
        self.maximum_collateral.jval_wf();
        self.minimum_liquidity.jval_wf();
        self.utoken_supply.jval_wf();
        self.available_borrow.jval_wf();
        self.available_withdraw.jval_wf();
        self.available_collateralize.jval_wf();
        assert forall|k: int| 0 <= k < self.jval()->Obj_0.len() implies json_wf(
            #[trigger] self.jval()->Obj_0[k].1,
        ) by {
            if k == 0 {
                assert(json_wf(self.jval()->Obj_0[0].1));
            }
            if k == 1 {
                assert(json_wf(self.jval()->Obj_0[1].1));
            }
            if k == 2 {
                assert(json_wf(self.jval()->Obj_0[2].1));
            }
            if k == 3 {
                assert(json_wf(self.jval()->Obj_0[3].1));
            }
            if k == 4 {
                assert(json_wf(self.jval()->Obj_0[4].1));
            }
            if k == 5 {
                assert(json_wf(self.jval()->Obj_0[5].1));
            }
            if k == 6 {
                assert(json_wf(self.jval()->Obj_0[6].1));
            }
            if k == 7 {
                assert(json_wf(self.jval()->Obj_0[7].1));
            }
            if k == 8 {
                assert(json_wf(self.jval()->Obj_0[8].1));
            }
            if k == 9 {
                assert(json_wf(self.jval()->Obj_0[9].1));
            }
            if k == 10 {
                assert(json_wf(self.jval()->Obj_0[10].1));
            }
            if k == 11 {
                assert(json_wf(self.jval()->Obj_0[11].1));
            }
            if k == 12 {
                assert(json_wf(self.jval()->Obj_0[12].1));
            }
            if k == 13 {
                assert(json_wf(self.jval()->Obj_0[13].1));
            }
            if k == 14 {
                assert(json_wf(self.jval()->Obj_0[14].1));
            }
            if k == 15 {
                assert(json_wf(self.jval()->Obj_0[15].1));
            }
            if k == 16 {
                assert(json_wf(self.jval()->Obj_0[16].1));
            }
            if k == 17 {
                assert(json_wf(self.jval()->Obj_0[17].1));
            }
        }
    }

    fn build_jval(&self) -> (r: JsonVal) {
        let mut entries: Vec<JsonEntry> = Vec::new();
        entries.push(JsonEntry { key: String::from_str("symbol_denom"), val: self.symbol_denom.build_jval() });
        entries.push(JsonEntry { key: String::from_str("exponent"), val: self.exponent.build_jval() });
        entries.push(JsonEntry { key: String::from_str("oracle_price"), val: self.oracle_price.build_jval() });
        entries.push(JsonEntry { key: String::from_str("utoken_exchange_rate"), val: self.utoken_exchange_rate.build_jval() });
        entries.push(JsonEntry { key: String::from_str("supply_apy"), val: self.supply_apy.build_jval() });
        entries.push(JsonEntry { key: String::from_str("borrow_apy"), val: self.borrow_apy.build_jval() });
        entries.push(JsonEntry { key: String::from_str("supplied"), val: self.supplied.build_jval() });
        entries.push(JsonEntry { key: String::from_str("reserved"), val: self.reserved.build_jval() });
        entries.push(JsonEntry { key: String::from_str("collateral"), val: self.collateral.build_jval() });
        entries.push(JsonEntry { key: String::from_str("borrowed"), val: self.borrowed.build_jval() });
        entries.push(JsonEntry { key: String::from_str("liquidity"), val: self.liquidity.build_jval() });
        entries.push(JsonEntry { key: String::from_str("maximum_borrow"), val: self.maximum_borrow.build_jval() });
        entries.push(JsonEntry { key: String::from_str("maximum_collateral"), val: self.maximum_collateral.build_jval() });
        entries.push(JsonEntry { key: String::from_str("minimum_liquidity"), val: self.minimum_liquidity.build_jval() });
        entries.push(JsonEntry { key: String::from_str("utoken_supply"), val: self.utoken_supply.build_jval() });
        entries.push(JsonEntry { key: String::from_str("available_borrow"), val: self.available_borrow.build_jval() });
        entries.push(JsonEntry { key: String::from_str("available_withdraw"), val: self.available_withdraw.build_jval() });
        entries.push(JsonEntry { key: String::from_str("available_collateralize"), val: self.available_collateralize.build_jval() });
        let ghost ges = entries@;
        let r = JsonVal::Obj(entries);
        proof {
            let dvs = r.dv()->Obj_0;
            assert(dvs.len() == 18);
            assert(dvs[0] == (ges[0].key@, ges[0].val.dv()));
            assert(dvs[1] == (ges[1].key@, ges[1].val.dv()));
            assert(dvs[2] == (ges[2].key@, ges[2].val.dv()));
            assert(dvs[3] == (ges[3].key@, ges[3].val.dv()));
            assert(dvs[4] == (ges[4].key@, ges[4].val.dv()));
            assert(dvs[5] == (ges[5].key@, ges[5].val.dv()));
            assert(dvs[6] == (ges[6].key@, ges[6].val.dv()));
            assert(dvs[7] == (ges[7].key@, ges[7].val.dv()));
            assert(dvs[8] == (ges[8].key@, ges[8].val.dv()));
            assert(dvs[9] == (ges[9].key@, ges[9].val.dv()));
            assert(dvs[10] == (ges[10].key@, ges[10].val.dv()));
            assert(dvs[11] == (ges[11].key@, ges[11].val.dv()));
            assert(dvs[12] == (ges[12].key@, ges[12].val.dv()));
            assert(dvs[13] == (ges[13].key@, ges[13].val.dv()));
            assert(dvs[14] == (ges[14].key@, ges[14].val.dv()));
            assert(dvs[15] == (ges[15].key@, ges[15].val.dv()));
            assert(dvs[16] == (ges[16].key@, ges[16].val.dv()));
            assert(dvs[17] == (ges[17].key@, ges[17].val.dv()));
            assert(r.dv()->Obj_0 =~~= self.jval()->Obj_0);
            assert(r.dv() =~~= self.jval());
            assert(ges[0].val.wf());
            assert(ges[1].val.wf());
            assert(ges[2].val.wf());
            assert(ges[3].val.wf());
            assert(ges[4].val.wf());
            assert(ges[5].val.wf());
            assert(ges[6].val.wf());
            assert(ges[7].val.wf());
            assert(ges[8].val.wf());
            assert(ges[9].val.wf());
            assert(ges[10].val.wf());
            assert(ges[11].val.wf());
            assert(ges[12].val.wf());
            assert(ges[13].val.wf());
            assert(ges[14].val.wf());
            assert(ges[15].val.wf());
            assert(ges[16].val.wf());
            assert(ges[17].val.wf());
        }
        r
    }

    fn from_jval(v: &JsonVal) -> (r: Option<MarketSummaryResponse>) {
        match v {
            JsonVal::Obj(entries) => {
                let shape = entries.len() == 18 && str_eq(entries[0].key.as_str(), "symbol_denom") && str_eq(entries[1].key.as_str(), "exponent") && str_eq(entries[2].key.as_str(), "oracle_price") && str_eq(entries[3].key.as_str(), "utoken_exchange_rate") && str_eq(entries[4].key.as_str(), "supply_apy") && str_eq(entries[5].key.as_str(), "borrow_apy") && str_eq(entries[6].key.as_str(), "supplied") && str_eq(entries[7].key.as_str(), "reserved") && str_eq(entries[8].key.as_str(), "collateral") && str_eq(entries[9].key.as_str(), "borrowed") && str_eq(entries[10].key.as_str(), "liquidity") && str_eq(entries[11].key.as_str(), "maximum_borrow") && str_eq(entries[12].key.as_str(), "maximum_collateral") && str_eq(entries[13].key.as_str(), "minimum_liquidity") && str_eq(entries[14].key.as_str(), "utoken_supply") && str_eq(entries[15].key.as_str(), "available_borrow") && str_eq(entries[16].key.as_str(), "available_withdraw") && str_eq(entries[17].key.as_str(), "available_collateralize");
                proof {
                    let dvs = v.dv()->Obj_0;
                    assert(dvs.len() == entries@.len());
                    if entries@.len() == 18 {
                        assert(dvs[0] == (entries@[0].key@, entries@[0].val.dv()));
                        assert(dvs[1] == (entries@[1].key@, entries@[1].val.dv()));
                        assert(dvs[2] == (entries@[2].key@, entries@[2].val.dv()));
                        assert(dvs[3] == (entries@[3].key@, entries@[3].val.dv()));
                        assert(dvs[4] == (entries@[4].key@, entries@[4].val.dv()));
                        assert(dvs[5] == (entries@[5].key@, entries@[5].val.dv()));
                        assert(dvs[6] == (entries@[6].key@, entries@[6].val.dv()));
                        assert(dvs[7] == (entries@[7].key@, entries@[7].val.dv()));
                        assert(dvs[8] == (entries@[8].key@, entries@[8].val.dv()));
                        assert(dvs[9] == (entries@[9].key@, entries@[9].val.dv()));
                        assert(dvs[10] == (entries@[10].key@, entries@[10].val.dv()));
                        assert(dvs[11] == (entries@[11].key@, entries@[11].val.dv()));
                        assert(dvs[12] == (entries@[12].key@, entries@[12].val.dv()));
                        assert(dvs[13] == (entries@[13].key@, entries@[13].val.dv()));
                        assert(dvs[14] == (entries@[14].key@, entries@[14].val.dv()));
                        assert(dvs[15] == (entries@[15].key@, entries@[15].val.dv()));
                        assert(dvs[16] == (entries@[16].key@, entries@[16].val.dv()));
                        assert(dvs[17] == (entries@[17].key@, entries@[17].val.dv()));
                    }
                }
                if shape {
                    let g0: Option<String> = WireRecord::from_jval(&entries[0].val);
                    let g1: Option<u32> = WireRecord::from_jval(&entries[1].val);
                    let g2: Option<Decimal256> = WireRecord::from_jval(&entries[2].val);
                    let g3: Option<Decimal256> = WireRecord::from_jval(&entries[3].val);
                    let g4: Option<Decimal256> = WireRecord::from_jval(&entries[4].val);
                    let g5: Option<Decimal256> = WireRecord::from_jval(&entries[5].val);
                    let g6: Option<Decimal256> = WireRecord::from_jval(&entries[6].val);
                    let g7: Option<Decimal256> = WireRecord::from_jval(&entries[7].val);
                    let g8: Option<Decimal256> = WireRecord::from_jval(&entries[8].val);
                    let g9: Option<Decimal256> = WireRecord::from_jval(&entries[9].val);
                    let g10: Option<Decimal256> = WireRecord::from_jval(&entries[10].val);
                    let g11: Option<Decimal256> = WireRecord::from_jval(&entries[11].val);
                    let g12: Option<Decimal256> = WireRecord::from_jval(&entries[12].val);
                    let g13: Option<Decimal256> = WireRecord::from_jval(&entries[13].val);
                    let g14: Option<Decimal256> = WireRecord::from_jval(&entries[14].val);
                    let g15: Option<Decimal256> = WireRecord::from_jval(&entries[15].val);
                    let g16: Option<Decimal256> = WireRecord::from_jval(&entries[16].val);
                    let g17: Option<Decimal256> = WireRecord::from_jval(&entries[17].val);
                    match (g0, g1, g2, g3, g4, g5, g6, g7, g8, g9, g10, g11, g12, g13, g14, g15, g16, g17) {
                        (Some(h0), Some(h1), Some(h2), Some(h3), Some(h4), Some(h5), Some(h6), Some(h7), Some(h8), Some(h9), Some(h10), Some(h11), Some(h12), Some(h13), Some(h14), Some(h15), Some(h16), Some(h17)) => {
                            let x = MarketSummaryResponse { symbol_denom: h0, exponent: h1, oracle_price: h2, utoken_exchange_rate: h3, supply_apy: h4, borrow_apy: h5, supplied: h6, reserved: h7, collateral: h8, borrowed: h9, liquidity: h10, maximum_borrow: h11, maximum_collateral: h12, minimum_liquidity: h13, utoken_supply: h14, available_borrow: h15, available_withdraw: h16, available_collateralize: h17 };
                            proof {
                                assert(x.jval()->Obj_0 =~~= v.dv()->Obj_0);
                                assert(x.jval() =~~= v.dv());
                            }
                            Some(x)
                        },
                        _ => {
                            proof {
                                assert forall|x: MarketSummaryResponse| v.dv() != #[trigger] x.jval() by {
                                    if v.dv() == x.jval() {
                                        assert(v.dv()->Obj_0[0].1 == x.symbol_denom.jval());
                                        assert(v.dv()->Obj_0[1].1 == x.exponent.jval());
                                        assert(v.dv()->Obj_0[2].1 == x.oracle_price.jval());
                                        assert(v.dv()->Obj_0[3].1 == x.utoken_exchange_rate.jval());
                                        assert(v.dv()->Obj_0[4].1 == x.supply_apy.jval());
                                        assert(v.dv()->Obj_0[5].1 == x.borrow_apy.jval());
                                        assert(v.dv()->Obj_0[6].1 == x.supplied.jval());
                                        assert(v.dv()->Obj_0[7].1 == x.reserved.jval());
                                        assert(v.dv()->Obj_0[8].1 == x.collateral.jval());
                                        assert(v.dv()->Obj_0[9].1 == x.borrowed.jval());
                                        assert(v.dv()->Obj_0[10].1 == x.liquidity.jval());
                                        assert(v.dv()->Obj_0[11].1 == x.maximum_borrow.jval());
                                        assert(v.dv()->Obj_0[12].1 == x.maximum_collateral.jval());
                                        assert(v.dv()->Obj_0[13].1 == x.minimum_liquidity.jval());
                                        assert(v.dv()->Obj_0[14].1 == x.utoken_supply.jval());
                                        assert(v.dv()->Obj_0[15].1 == x.available_borrow.jval());
                                        assert(v.dv()->Obj_0[16].1 == x.available_withdraw.jval());
                                        assert(v.dv()->Obj_0[17].1 == x.available_collateralize.jval());
                                    }
                                }
                            }
                            None
                        },
                    }
                } else {
                    proof {
                        assert forall|x: MarketSummaryResponse| v.dv() != #[trigger] x.jval() by {
                            if v.dv() == x.jval() {
                                assert(v.dv()->Obj_0.len() == 18);
                                assert(v.dv()->Obj_0[0].0 == "symbol_denom"@);
                                assert(v.dv()->Obj_0[1].0 == "exponent"@);
                                assert(v.dv()->Obj_0[2].0 == "oracle_price"@);
                                assert(v.dv()->Obj_0[3].0 == "utoken_exchange_rate"@);
                                assert(v.dv()->Obj_0[4].0 == "supply_apy"@);
                                assert(v.dv()->Obj_0[5].0 == "borrow_apy"@);
                                assert(v.dv()->Obj_0[6].0 == "supplied"@);
                                assert(v.dv()->Obj_0[7].0 == "reserved"@);
                                assert(v.dv()->Obj_0[8].0 == "collateral"@);
                                assert(v.dv()->Obj_0[9].0 == "borrowed"@);
                                assert(v.dv()->Obj_0[10].0 == "liquidity"@);
                                assert(v.dv()->Obj_0[11].0 == "maximum_borrow"@);
                                assert(v.dv()->Obj_0[12].0 == "maximum_collateral"@);
                                assert(v.dv()->Obj_0[13].0 == "minimum_liquidity"@);
                                assert(v.dv()->Obj_0[14].0 == "utoken_supply"@);
                                assert(v.dv()->Obj_0[15].0 == "available_borrow"@);
                                assert(v.dv()->Obj_0[16].0 == "available_withdraw"@);
                                assert(v.dv()->Obj_0[17].0 == "available_collateralize"@);
                            }
                        }
                    }
                    None
                }
            },
            _ => None,
        }
    }
}
/// Asks for an account's positions.
#[derive(Clone, Debug, PartialEq, Eq)]
pub struct AccountBalancesParams {
    pub address: Addr,
}
impl WireRecord for AccountBalancesParams {
    open spec fn jval(self) -> JsonSpec {
        JsonSpec::Obj(
            seq![
                ("address"@, self.address.jval()),
            ],
        )
    }

    proof fn jval_wf(self) {
        self.address.jval_wf();
        assert forall|k: int| 0 <= k < self.jval()->Obj_0.len() implies json_wf(
            #[trigger] self.jval()->Obj_0[k].1,
        ) by {
            if k == 0 {
                assert(json_wf(self.jval()->Obj_0[0].1));
            }
        }
    }

    fn build_jval(&self) -> (r: JsonVal) {
        let mut entries: Vec<JsonEntry> = Vec::new();
        entries.push(JsonEntry { key: String::from_str("address"), val: self.address.build_jval() });
        let ghost ges = entries@;
        let r = JsonVal::Obj(entries);
        proof {
            let dvs = r.dv()->Obj_0;
            assert(dvs.len() == 1);
            assert(dvs[0] == (ges[0].key@, ges[0].val.dv()));
            assert(r.dv()->Obj_0 =~~= self.jval()->Obj_0);
            assert(r.dv() =~~= self.jval());
            assert(ges[0].val.wf());
        }
        r
    }

    fn from_jval(v: &JsonVal) -> (r: Option<AccountBalancesParams>) {
        match v {
            JsonVal::Obj(entries) => {
                let shape = entries.len() == 1 && str_eq(entries[0].key.as_str(), "address");
                proof {
                    let dvs = v.dv()->Obj_0;
                    assert(dvs.len() == entries@.len());
                    if entries@.len() == 1 {
                        assert(dvs[0] == (entries@[0].key@, entries@[0].val.dv()));
                    }
                }
                if shape {
                    let g0: Option<Addr> = WireRecord::from_jval(&entries[0].val);
                    match (g0) {
                        (Some(h0)) => {
                            let x = AccountBalancesParams { address: h0 };
                            proof {
                                assert(x.jval()->Obj_0 =~~= v.dv()->Obj_0);
                                assert(x.jval() =~~= v.dv());
                            }
                            Some(x)
                        },
                        _ => {
                            proof {
                                assert forall|x: AccountBalancesParams| v.dv() != #[trigger] x.jval() by {
                                    if v.dv() == x.jval() {
                                        assert(v.dv()->Obj_0[0].1 == x.address.jval());
                                    }
                                }
                            }
                            None
                        },
                    }
                } else {
                    proof {
                        assert forall|x: AccountBalancesParams| v.dv() != #[trigger] x.jval() by {
                            if v.dv() == x.jval() {
                                assert(v.dv()->Obj_0.len() == 1);
                                assert(v.dv()->Obj_0[0].0 == "address"@);
                            }
                        }
                    }
                    None
                }
            },
            _ => None,
        }
    }
}
/// An account's supply, collateral and borrow positions.
#[derive(Clone, Debug, PartialEq, Eq)]
pub struct AccountBalancesResponse {
    pub supplied: Vec<Coin>,
    pub collateral: Vec<Coin>,
    pub borrowed: Vec<Coin>,
}
impl WireRecord for AccountBalancesResponse {
    open spec fn jval(self) -> JsonSpec {
        JsonSpec::Obj(
            seq![
                ("supplied"@, self.supplied.jval()),
                ("collateral"@, self.collateral.jval()),
                ("borrowed"@, self.borrowed.jval()),
            ],
        )
    }

    proof fn jval_wf(self) {
        self.supplied.jval_wf();
        self.collateral.jval_wf();
        self.borrowed.jval_wf();
        assert forall|k: int| 0 <= k < self.jval()->Obj_0.len() implies json_wf(
            #[trigger] self.jval()->Obj_0[k].1,
        ) by {
            if k == 0 {
                assert(json_wf(self.jval()->Obj_0[0].1));
            }
            if k == 1 {
                assert(json_wf(self.jval()->Obj_0[1].1));
            }
            if k == 2 {
                assert(json_wf(self.jval()->Obj_0[2].1));
            }
        }
    }

    fn build_jval(&self) -> (r: JsonVal) {
        let mut entries: Vec<JsonEntry> = Vec::new();
        entries.push(JsonEntry { key: String::from_str("supplied"), val: self.supplied.build_jval() });
        entries.push(JsonEntry { key: String::from_str("collateral"), val: self.collateral.build_jval() });
        entries.push(JsonEntry { key: String::from_str("borrowed"), val: self.borrowed.build_jval() });
        let ghost ges = entries@;
        let r = JsonVal::Obj(entries);
        proof {
            let dvs = r.dv()->Obj_0;
            assert(dvs.len() == 3);
            assert(dvs[0] == (ges[0].key@, ges[0].val.dv()));
            assert(dvs[1] == (ges[1].key@, ges[1].val.dv()));
            assert(dvs[2] == (ges[2].key@, ges[2].val.dv()));
            assert(r.dv()->Obj_0 =~~= self.jval()->Obj_0);
            assert(r.dv() =~~= self.jval());
            assert(ges[0].val.wf());
            assert(ges[1].val.wf());
            assert(ges[2].val.wf());
        }
        r
    }

    fn from_jval(v: &JsonVal) -> (r: Option<AccountBalancesResponse>) {
        match v {
            JsonVal::Obj(entries) => {
                let shape = entries.len() == 3 && str_eq(entries[0].key.as_str(), "supplied") && str_eq(entries[1].key.as_str(), "collateral") && str_eq(entries[2].key.as_str(), "borrowed");
                proof {
                    let dvs = v.dv()->Obj_0;
                    assert(dvs.len() == entries@.len());
                    if entries@.len() == 3 {
                        assert(dvs[0] == (entries@[0].key@, entries@[0].val.dv()));
                        assert(dvs[1] == (entries@[1].key@, entries@[1].val.dv()));
                        assert(dvs[2] == (entries@[2].key@, entries@[2].val.dv()));
                    }
                }
                if shape {
                    let g0: Option<Vec<Coin>> = WireRecord::from_jval(&entries[0].val);
                    let g1: Option<Vec<Coin>> = WireRecord::from_jval(&entries[1].val);
                    let g2: Option<Vec<Coin>> = WireRecord::from_jval(&entries[2].val);
                    match (g0, g1, g2) {
                        (Some(h0), Some(h1), Some(h2)) => {
                            let x = AccountBalancesResponse { supplied: h0, collateral: h1, borrowed: h2 };
                            proof {
                                assert(x.jval()->Obj_0 =~~= v.dv()->Obj_0);
                                assert(x.jval() =~~= v.dv());
                            }
                            Some(x)
                        },
                        _ => {
                            proof {
                                assert forall|x: AccountBalancesResponse| v.dv() != #[trigger] x.jval() by {
                                    if v.dv() == x.jval() {
                                        assert(v.dv()->Obj_0[0].1 == x.supplied.jval());
                                        assert(v.dv()->Obj_0[1].1 == x.collateral.jval());
                                        assert(v.dv()->Obj_0[2].1 == x.borrowed.jval());
                                    }
                                }
                            }
                            None
                        },
                    }
                } else {
                    proof {
                        assert forall|x: AccountBalancesResponse| v.dv() != #[trigger] x.jval() by {
                            if v.dv() == x.jval() {
                                assert(v.dv()->Obj_0.len() == 3);
                                assert(v.dv()->Obj_0[0].0 == "supplied"@);
                                assert(v.dv()->Obj_0[1].0 == "collateral"@);
                                assert(v.dv()->Obj_0[2].0 == "borrowed"@);
                            }
                        }
                    }
                    None
                }
            },
            _ => None,
        }
    }
}
/// Asks for an account's totals in USD values.
#[derive(Clone, Debug, PartialEq, Eq)]
pub struct AccountSummaryParams {
    pub address: Addr,
}
impl WireRecord for AccountSummaryParams {
    open spec fn jval(self) -> JsonSpec {
        JsonSpec::Obj(
            seq![
                ("address"@, self.address.jval()),
            ],
        )
    }

    proof fn jval_wf(self) {
        self.address.jval_wf();
        assert forall|k: int| 0 <= k < self.jval()->Obj_0.len() implies json_wf(
            #[trigger] self.jval()->Obj_0[k].1,
        ) by {
            if k == 0 {
                assert(json_wf(self.jval()->Obj_0[0].1));
            }
        }
    }

    fn build_jval(&self) -> (r: JsonVal) {
        let mut entries: Vec<JsonEntry> = Vec::new();
        entries.push(JsonEntry { key: String::from_str("address"), val: self.address.build_jval() });
        let ghost ges = entries@;
        let r = JsonVal::Obj(entries);
        proof {
            let dvs = r.dv()->Obj_0;
            assert(dvs.len() == 1);
            assert(dvs[0] == (ges[0].key@, ges[0].val.dv()));
            assert(r.dv()->Obj_0 =~~= self.jval()->Obj_0);
            assert(r.dv() =~~= self.jval());
            assert(ges[0].val.wf());
        }
        r
    }

    fn from_jval(v: &JsonVal) -> (r: Option<AccountSummaryParams>) {
        match v {
            JsonVal::Obj(entries) => {
                let shape = entries.len() == 1 && str_eq(entries[0].key.as_str(), "address");
                proof {
                    let dvs = v.dv()->Obj_0;
                    assert(dvs.len() == entries@.len());
                    if entries@.len() == 1 {
                        assert(dvs[0] == (entries@[0].key@, entries@[0].val.dv()));
                    }
                }
                if shape {
                    let g0: Option<Addr> = WireRecord::from_jval(&entries[0].val);
                    match (g0) {
                        (Some(h0)) => {
                            let x = AccountSummaryParams { address: h0 };
                            proof {
                                assert(x.jval()->Obj_0 =~~= v.dv()->Obj_0);
                                assert(x.jval() =~~= v.dv());
                            }
                            Some(x)
                        },
                        _ => {
                            proof {
                                assert forall|x: AccountSummaryParams| v.dv() != #[trigger] x.jval() by {
                                    if v.dv() == x.jval() {
                                        assert(v.dv()->Obj_0[0].1 == x.address.jval());
                                    }
                                }
                            }
                            None
                        },
                    }
                } else {
                    proof {
                        assert forall|x: AccountSummaryParams| v.dv() != #[trigger] x.jval() by {
                            if v.dv() == x.jval() {
                                assert(v.dv()->Obj_0.len() == 1);
                                assert(v.dv()->Obj_0[0].0 == "address"@);
                            }
                        }
                    }
                    None
                }
            },
            _ => None,
        }
    }
}
/// An account's totals in USD values.
#[derive(Clone, Debug, PartialEq, Eq)]
pub struct AccountSummaryResponse {
    pub supplied_value: Decimal256,
    pub collateral_value: Decimal256,
    pub borrowed_value: Decimal256,
    pub borrow_limit: Decimal256,
    pub liquidation_threshold: Decimal256,
}
impl WireRecord for AccountSummaryResponse {
    open spec fn jval(self) -> JsonSpec {
        JsonSpec::Obj(
            seq![
                ("supplied_value"@, self.supplied_value.jval()),
                ("collateral_value"@, self.collateral_value.jval()),
                ("borrowed_value"@, self.borrowed_value.jval()),
                ("borrow_limit"@, self.borrow_limit.jval()),
                ("liquidation_threshold"@, self.liquidation_threshold.jval()),
            ],
        )
    }

    proof fn jval_wf(self) {
        self.supplied_value.jval_wf();
        self.collateral_value.jval_wf();
        self.borrowed_value.jval_wf();
        self.borrow_limit.jval_wf();
        self.liquidation_threshold.jval_wf();
        assert forall|k: int| 0 <= k < self.jval()->Obj_0.len() implies json_wf(
            #[trigger] self.jval()->Obj_0[k].1,
        ) by {
            if k == 0 {
                assert(json_wf(self.jval()->Obj_0[0].1));
            }
            if k == 1 {
                assert(json_wf(self.jval()->Obj_0[1].1));
            }
            if k == 2 {
                assert(json_wf(self.jval()->Obj_0[2].1));
            }
            if k == 3 {
                assert(json_wf(self.jval()->Obj_0[3].1));
            }
            if k == 4 {
                assert(json_wf(self.jval()->Obj_0[4].1));
            }
        }
    }

    fn build_jval(&self) -> (r: JsonVal) {
        let mut entries: Vec<JsonEntry> = Vec::new();
        entries.push(JsonEntry { key: String::from_str("supplied_value"), val: self.supplied_value.build_jval() });
        entries.push(JsonEntry { key: String::from_str("collateral_value"), val: self.collateral_value.build_jval() });
        entries.push(JsonEntry { key: String::from_str("borrowed_value"), val: self.borrowed_value.build_jval() });
        entries.push(JsonEntry { key: String::from_str("borrow_limit"), val: self.borrow_limit.build_jval() });
        entries.push(JsonEntry { key: String::from_str("liquidation_threshold"), val: self.liquidation_threshold.build_jval() });
        let ghost ges = entries@;
        let r = JsonVal::Obj(entries);
        proof {
            let dvs = r.dv()->Obj_0;
            assert(dvs.len() == 5);
            assert(dvs[0] == (ges[0].key@, ges[0].val.dv()));
            assert(dvs[1] == (ges[1].key@, ges[1].val.dv()));
            assert(dvs[2] == (ges[2].key@, ges[2].val.dv()));
            assert(dvs[3] == (ges[3].key@, ges[3].val.dv()));
            assert(dvs[4] == (ges[4].key@, ges[4].val.dv()));
            assert(r.dv()->Obj_0 =~~= self.jval()->Obj_0);
            assert(r.dv() =~~= self.jval());
            assert(ges[0].val.wf());
            assert(ges[1].val.wf());
            assert(ges[2].val.wf());
            assert(ges[3].val.wf());
            assert(ges[4].val.wf());
        }
        r
    }

    fn from_jval(v: &JsonVal) -> (r: Option<AccountSummaryResponse>) {
        match v {
            JsonVal::Obj(entries) => {
                let shape = entries.len() == 5 && str_eq(entries[0].key.as_str(), "supplied_value") && str_eq(entries[1].key.as_str(), "collateral_value") && str_eq(entries[2].key.as_str(), "borrowed_value") && str_eq(entries[3].key.as_str(), "borrow_limit") && str_eq(entries[4].key.as_str(), "liquidation_threshold");
                proof {
                    let dvs = v.dv()->Obj_0;
                    assert(dvs.len() == entries@.len());
                    if entries@.len() == 5 {
                        assert(dvs[0] == (entries@[0].key@, entries@[0].val.dv()));
                        assert(dvs[1] == (entries@[1].key@, entries@[1].val.dv()));
                        assert(dvs[2] == (entries@[2].key@, entries@[2].val.dv()));
                        assert(dvs[3] == (entries@[3].key@, entries@[3].val.dv()));
                        assert(dvs[4] == (entries@[4].key@, entries@[4].val.dv()));
                    }
                }
                if shape {
                    let g0: Option<Decimal256> = WireRecord::from_jval(&entries[0].val);
                    let g1: Option<Decimal256> = WireRecord::from_jval(&entries[1].val);
                    let g2: Option<Decimal256> = WireRecord::from_jval(&entries[2].val);
                    let g3: Option<Decimal256> = WireRecord::from_jval(&entries[3].val);
                    let g4: Option<Decimal256> = WireRecord::from_jval(&entries[4].val);
                    match (g0, g1, g2, g3, g4) {
                        (Some(h0), Some(h1), Some(h2), Some(h3), Some(h4)) => {
                            let x = AccountSummaryResponse { supplied_value: h0, collateral_value: h1, borrowed_value: h2, borrow_limit: h3, liquidation_threshold: h4 };
                            proof {
                                assert(x.jval()->Obj_0 =~~= v.dv()->Obj_0);
                                assert(x.jval() =~~= v.dv());
                            }
                            Some(x)
                        },
                        _ => {
                            proof {
                                assert forall|x: AccountSummaryResponse| v.dv() != #[trigger] x.jval() by {
                                    if v.dv() == x.jval() {
                                        assert(v.dv()->Obj_0[0].1 == x.supplied_value.jval());
                                        assert(v.dv()->Obj_0[1].1 == x.collateral_value.jval());
                                        assert(v.dv()->Obj_0[2].1 == x.borrowed_value.jval());
                                        assert(v.dv()->Obj_0[3].1 == x.borrow_limit.jval());
                                        assert(v.dv()->Obj_0[4].1 == x.liquidation_threshold.jval());
                                    }
                                }
                            }
                            None
                        },
                    }
                } else {
                    proof {
                        assert forall|x: AccountSummaryResponse| v.dv() != #[trigger] x.jval() by {
                            if v.dv() == x.jval() {
                                assert(v.dv()->Obj_0.len() == 5);
                                assert(v.dv()->Obj_0[0].0 == "supplied_value"@);
                                assert(v.dv()->Obj_0[1].0 == "collateral_value"@);
                                assert(v.dv()->Obj_0[2].0 == "borrowed_value"@);
                                assert(v.dv()->Obj_0[3].0 == "borrow_limit"@);
                                assert(v.dv()->Obj_0[4].0 == "liquidation_threshold"@);
                            }
                        }
                    }
                    None
                }
            },
            _ => None,
        }
    }
}
/// Asks for the borrowers eligible for liquidation.
#[derive(Clone, Debug, PartialEq, Eq)]
pub struct LiquidationTargetsParams {
}
impl WireRecord for LiquidationTargetsParams {
    open spec fn jval(self) -> JsonSpec {
        JsonSpec::Obj(Seq::empty())
    }

    proof fn jval_wf(self) {
    }

    fn build_jval(&self) -> (r: JsonVal) {
        let r = JsonVal::Obj(Vec::new());
        proof {
            assert(r.dv()->Obj_0 =~~= self.jval()->Obj_0);
            assert(r.dv() =~~= self.jval());
        }
        r
    }

    fn from_jval(v: &JsonVal) -> (r: Option<LiquidationTargetsParams>) {
        match v {
            JsonVal::Obj(entries) => {
                if entries.len() == 0 {
                    let x = LiquidationTargetsParams {  };
                    proof {
                        assert(x.jval()->Obj_0 =~~= v.dv()->Obj_0);
                        assert(x.jval() =~~= v.dv());
                    }
                    Some(x)
                } else {
                    proof {
                        assert forall|x: LiquidationTargetsParams| v.dv() != #[trigger] x.jval() by {
                            assert(x.jval()->Obj_0.len() == 0);
                            assert(v.dv()->Obj_0.len() == entries@.len());
                        }
                    }
                    None
                }
            },
            _ => None,
        }
    }
}
/// The borrowers eligible for liquidation.
#[derive(Clone, Debug, PartialEq, Eq)]
pub struct LiquidationTargetsResponse {
    pub targets: Vec<String>,
}
impl WireRecord for LiquidationTargetsResponse {
    open spec fn jval(self) -> JsonSpec {
        JsonSpec::Obj(
            seq![
                ("targets"@, self.targets.jval()),
            ],
        )
    }

    proof fn jval_wf(self) {
        self.targets.jval_wf();
        assert forall|k: int| 0 <= k < self.jval()->Obj_0.len() implies json_wf(
            #[trigger] self.jval()->Obj_0[k].1,
        ) by {
            if k == 0 {
                assert(json_wf(self.jval()->Obj_0[0].1));
            }
        }
    }

    fn build_jval(&self) -> (r: JsonVal) {
        let mut entries: Vec<JsonEntry> = Vec::new();
        entries.push(JsonEntry { key: String::from_str("targets"), val: self.targets.build_jval() });
        let ghost ges = entries@;
        let r = JsonVal::Obj(entries);
        proof {
            let dvs = r.dv()->Obj_0;
            assert(dvs.len() == 1);
            assert(dvs[0] == (ges[0].key@, ges[0].val.dv()));
            assert(r.dv()->Obj_0 =~~= self.jval()->Obj_0);
            assert(r.dv() =~~= self.jval());
            assert(ges[0].val.wf());
        }
        r
    }

    fn from_jval(v: &JsonVal) -> (r: Option<LiquidationTargetsResponse>) {
        match v {
            JsonVal::Obj(entries) => {
                let shape = entries.len() == 1 && str_eq(entries[0].key.as_str(), "targets");
                proof {
                    let dvs = v.dv()->Obj_0;
                    assert(dvs.len() == entries@.len());
                    if entries@.len() == 1 {
                        assert(dvs[0] == (entries@[0].key@, entries@[0].val.dv()));
                    }
                }
                if shape {
                    let g0: Option<Vec<String>> = WireRecord::from_jval(&entries[0].val);
                    match (g0) {
                        (Some(h0)) => {
                            let x = LiquidationTargetsResponse { targets: h0 };
                            proof {
                                assert(x.jval()->Obj_0 =~~= v.dv()->Obj_0);
                                assert(x.jval() =~~= v.dv());
                            }
                            Some(x)
                        },
                        _ => {
                            proof {
                                assert forall|x: LiquidationTargetsResponse| v.dv() != #[trigger] x.jval() by {
                                    if v.dv() == x.jval() {
                                        assert(v.dv()->Obj_0[0].1 == x.targets.jval());
                                    }
                                }
                            }
                            None
                        },
                    }
                } else {
                    proof {
                        assert forall|x: LiquidationTargetsResponse| v.dv() != #[trigger] x.jval() by {
                            if v.dv() == x.jval() {
                                assert(v.dv()->Obj_0.len() == 1);
                                assert(v.dv()->Obj_0[0].0 == "targets"@);
                            }
                        }
                    }
                    None
                }
            },
            _ => None,
        }
    }
}
/// Asks for the positions marked for bad-debt repayment.
#[derive(Clone, Debug, PartialEq, Eq)]
pub struct BadDebtsParams {
}
impl WireRecord for BadDebtsParams {
    open spec fn jval(self) -> JsonSpec {
        JsonSpec::Obj(Seq::empty())
    }

    proof fn jval_wf(self) {
    }

    fn build_jval(&self) -> (r: JsonVal) {
        let r = JsonVal::Obj(Vec::new());
        proof {
            assert(r.dv()->Obj_0 =~~= self.jval()->Obj_0);
            assert(r.dv() =~~= self.jval());
        }
        r
    }

    fn from_jval(v: &JsonVal) -> (r: Option<BadDebtsParams>) {
        match v {
            JsonVal::Obj(entries) => {
                if entries.len() == 0 {
                    let x = BadDebtsParams {  };
                    proof {
                        assert(x.jval()->Obj_0 =~~= v.dv()->Obj_0);
                        assert(x.jval() =~~= v.dv());
                    }
                    Some(x)
                } else {
                    proof {
                        assert forall|x: BadDebtsParams| v.dv() != #[trigger] x.jval() by {
                            assert(x.jval()->Obj_0.len() == 0);
                            assert(v.dv()->Obj_0.len() == entries@.len());
                        }
                    }
                    None
                }
            },
            _ => None,
        }
    }
}
/// The positions marked for bad-debt repayment.
#[derive(Clone, Debug, PartialEq, Eq)]
pub struct BadDebtsResponse {
    pub targets: Vec<BadDebt>,
}
impl WireRecord for BadDebtsResponse {
    open spec fn jval(self) -> JsonSpec {
        JsonSpec::Obj(
            seq![
                ("targets"@, self.targets.jval()),
            ],
        )
    }

    proof fn jval_wf(self) {
        self.targets.jval_wf();
        assert forall|k: int| 0 <= k < self.jval()->Obj_0.len() implies json_wf(
            #[trigger] self.jval()->Obj_0[k].1,
        ) by {
            if k == 0 {
                assert(json_wf(self.jval()->Obj_0[0].1));
            }
        }
    }

    fn build_jval(&self) -> (r: JsonVal) {
        let mut entries: Vec<JsonEntry> = Vec::new();
        entries.push(JsonEntry { key: String::from_str("targets"), val: self.targets.build_jval() });
        let ghost ges = entries@;
        let r = JsonVal::Obj(entries);
        proof {
            let dvs = r.dv()->Obj_0;
            assert(dvs.len() == 1);
            assert(dvs[0] == (ges[0].key@, ges[0].val.dv()));
            assert(r.dv()->Obj_0 =~~= self.jval()->Obj_0);
            assert(r.dv() =~~= self.jval());
            assert(ges[0].val.wf());
        }
        r
    }

    fn from_jval(v: &JsonVal) -> (r: Option<BadDebtsResponse>) {
        match v {
            JsonVal::Obj(entries) => {
                let shape = entries.len() == 1 && str_eq(entries[0].key.as_str(), "targets");
                proof {
                    let dvs = v.dv()->Obj_0;
                    assert(dvs.len() == entries@.len());
                    if entries@.len() == 1 {
                        assert(dvs[0] == (entries@[0].key@, entries@[0].val.dv()));
                    }
                }
                if shape {
                    let g0: Option<Vec<BadDebt>> = WireRecord::from_jval(&entries[0].val);
                    match (g0) {
                        (Some(h0)) => {
                            let x = BadDebtsResponse { targets: h0 };
                            proof {
                                assert(x.jval()->Obj_0 =~~= v.dv()->Obj_0);
                                assert(x.jval() =~~= v.dv());
                            }
                            Some(x)
                        },
                        _ => {
                            proof {
                                assert forall|x: BadDebtsResponse| v.dv() != #[trigger] x.jval() by {
                                    if v.dv() == x.jval() {
                                        assert(v.dv()->Obj_0[0].1 == x.targets.jval());
                                    }
                                }
                            }
                            None
                        },
                    }
                } else {
                    proof {
                        assert forall|x: BadDebtsResponse| v.dv() != #[trigger] x.jval() by {
                            if v.dv() == x.jval() {
                                assert(v.dv()->Obj_0.len() == 1);
                                assert(v.dv()->Obj_0[0].0 == "targets"@);
                            }
                        }
                    }
                    None
                }
            },
            _ => None,
        }
    }
}
/// Asks for the maximum withdrawable amounts.
#[derive(Clone, Debug, PartialEq, Eq)]
pub struct MaxWithdrawParams {
}
impl WireRecord for MaxWithdrawParams {
    open spec fn jval(self) -> JsonSpec {
        JsonSpec::Obj(Seq::empty())
    }

    proof fn jval_wf(self) {
    }

    fn build_jval(&self) -> (r: JsonVal) {
        let r = JsonVal::Obj(Vec::new());
        proof {
            assert(r.dv()->Obj_0 =~~= self.jval()->Obj_0);
            assert(r.dv() =~~= self.jval());
        }
        r
    }

    fn from_jval(v: &JsonVal) -> (r: Option<MaxWithdrawParams>) {
        match v {
            JsonVal::Obj(entries) => {
                if entries.len() == 0 {
                    let x = MaxWithdrawParams {  };
                    proof {
                        assert(x.jval()->Obj_0 =~~= v.dv()->Obj_0);
                        assert(x.jval() =~~= v.dv());
                    }
                    Some(x)
                } else {
                    proof {
                        assert forall|x: MaxWithdrawParams| v.dv() != #[trigger] x.jval() by {
                            assert(x.jval()->Obj_0.len() == 0);
                            assert(v.dv()->Obj_0.len() == entries@.len());
                        }
                    }
                    None
                }
            },
            _ => None,
        }
    }
}
/// Asks for the maximum borrowable amounts.
#[derive(Clone, Debug, PartialEq, Eq)]
pub struct MaxBorrowParams {
}
impl WireRecord for MaxBorrowParams {
    open spec fn jval(self) -> JsonSpec {
        JsonSpec::Obj(Seq::empty())
    }

    proof fn jval_wf(self) {
    }

    fn build_jval(&self) -> (r: JsonVal) {
        let r = JsonVal::Obj(Vec::new());
        proof {
            assert(r.dv()->Obj_0 =~~= self.jval()->Obj_0);
            assert(r.dv() =~~= self.jval());
        }
        r
    }

    fn from_jval(v: &JsonVal) -> (r: Option<MaxBorrowParams>) {
        match v {
            JsonVal::Obj(entries) => {
                if entries.len() == 0 {
                    let x = MaxBorrowParams {  };
                    proof {
                        assert(x.jval()->Obj_0 =~~= v.dv()->Obj_0);
                        assert(x.jval() =~~= v.dv());
                    }
                    Some(x)
                } else {
                    proof {
                        assert forall|x: MaxBorrowParams| v.dv() != #[trigger] x.jval() by {
                            assert(x.jval()->Obj_0.len() == 0);
                            assert(v.dv()->Obj_0.len() == entries@.len());
                        }
                    }
                    None
                }
            },
            _ => None,
        }
    }
}
/// The maximum borrowable amounts.
#[derive(Clone, Debug, PartialEq, Eq)]
pub struct MaxBorrowResponse {
    pub tokens: Coin,
}
impl WireRecord for MaxBorrowResponse {
    open spec fn jval(self) -> JsonSpec {
        JsonSpec::Obj(
            seq![
                ("tokens"@, self.tokens.jval()),
            ],
        )
    }

    proof fn jval_wf(self) {
        self.tokens.jval_wf();
        assert forall|k: int| 0 <= k < self.jval()->Obj_0.len() implies json_wf(
            #[trigger] self.jval()->Obj_0[k].1,
        ) by {
            if k == 0 {
                assert(json_wf(self.jval()->Obj_0[0].1));
            }
        }
    }

    fn build_jval(&self) -> (r: JsonVal) {
        let mut entries: Vec<JsonEntry> = Vec::new();
        entries.push(JsonEntry { key: String::from_str("tokens"), val: self.tokens.build_jval() });
        let ghost ges = entries@;
        let r = JsonVal::Obj(entries);
        proof {
            let dvs = r.dv()->Obj_0;
            assert(dvs.len() == 1);
            assert(dvs[0] == (ges[0].key@, ges[0].val.dv()));
            assert(r.dv()->Obj_0 =~~= self.jval()->Obj_0);
            assert(r.dv() =~~= self.jval());
            assert(ges[0].val.wf());
        }
        r
    }

    fn from_jval(v: &JsonVal) -> (r: Option<MaxBorrowResponse>) {
        match v {
            JsonVal::Obj(entries) => {
                let shape = entries.len() == 1 && str_eq(entries[0].key.as_str(), "tokens");
                proof {
                    let dvs = v.dv()->Obj_0;
                    assert(dvs.len() == entries@.len());
                    if entries@.len() == 1 {
                        assert(dvs[0] == (entries@[0].key@, entries@[0].val.dv()));
                    }
                }
                if shape {
                    let g0: Option<Coin> = WireRecord::from_jval(&entries[0].val);
                    match (g0) {
                        (Some(h0)) => {
                            let x = MaxBorrowResponse { tokens: h0 };
                            proof {
                                assert(x.jval()->Obj_0 =~~= v.dv()->Obj_0);
                                assert(x.jval() =~~= v.dv());
                            }
                            Some(x)
                        },
                        _ => {
                            proof {
                                assert forall|x: MaxBorrowResponse| v.dv() != #[trigger] x.jval() by {
                                    if v.dv() == x.jval() {
                                        assert(v.dv()->Obj_0[0].1 == x.tokens.jval());
                                    }
                                }
                            }
                            None
                        },
                    }
                } else {
                    proof {
                        assert forall|x: MaxBorrowResponse| v.dv() != #[trigger] x.jval() by {
                            if v.dv() == x.jval() {
                                assert(v.dv()->Obj_0.len() == 1);
                                assert(v.dv()->Obj_0[0].0 == "tokens"@);
                            }
                        }
                    }
                    None
                }
            },
            _ => None,
        }
    }
}
/// The maximum withdrawable amounts, as uTokens and as base tokens.
#[derive(Clone, Debug, PartialEq, Eq)]
#[allow(non_snake_case)]
pub struct MaxWithdrawResponse {
    pub uTokens: Coin,
    pub tokens: Coin,
}

impl WireRecord for MaxWithdrawResponse {
    open spec fn jval(self) -> JsonSpec {
        JsonSpec::Obj(
            seq![
                ("uTokens"@, self.uTokens.jval()),
                ("tokens"@, self.tokens.jval()),
            ],
        )
    }

    proof fn jval_wf(self) {
        self.uTokens.jval_wf();
        self.tokens.jval_wf();
        assert forall|k: int| 0 <= k < self.jval()->Obj_0.len() implies json_wf(
            #[trigger] self.jval()->Obj_0[k].1,
        ) by {
            if k == 0 {
                assert(json_wf(self.jval()->Obj_0[0].1));
            }
            if k == 1 {
                assert(json_wf(self.jval()->Obj_0[1].1));
            }
        }
    }

    fn build_jval(&self) -> (r: JsonVal) {
        let mut entries: Vec<JsonEntry> = Vec::new();
        entries.push(JsonEntry { key: String::from_str("uTokens"), val: self.uTokens.build_jval() });
        entries.push(JsonEntry { key: String::from_str("tokens"), val: self.tokens.build_jval() });
        let ghost ges = entries@;
        let r = JsonVal::Obj(entries);
        proof {
            let dvs = r.dv()->Obj_0;
            assert(dvs.len() == 2);
            assert(dvs[0] == (ges[0].key@, ges[0].val.dv()));
            assert(dvs[1] == (ges[1].key@, ges[1].val.dv()));
            assert(r.dv()->Obj_0 =~~= self.jval()->Obj_0);
            assert(r.dv() =~~= self.jval());
            assert(ges[0].val.wf());
            assert(ges[1].val.wf());
        }
        r
    }

    fn from_jval(v: &JsonVal) -> (r: Option<MaxWithdrawResponse>) {
        match v {
            JsonVal::Obj(entries) => {
                let shape = entries.len() == 2 && str_eq(entries[0].key.as_str(), "uTokens") && str_eq(entries[1].key.as_str(), "tokens");
                proof {
                    let dvs = v.dv()->Obj_0;
                    assert(dvs.len() == entries@.len());
                    if entries@.len() == 2 {
                        assert(dvs[0] == (entries@[0].key@, entries@[0].val.dv()));
                        assert(dvs[1] == (entries@[1].key@, entries@[1].val.dv()));
                    }
                }
                if shape {
                    let g0: Option<Coin> = WireRecord::from_jval(&entries[0].val);
                    let g1: Option<Coin> = WireRecord::from_jval(&entries[1].val);
                    match (g0, g1) {
                        (Some(h0), Some(h1)) => {
                            let x = MaxWithdrawResponse { uTokens: h0, tokens: h1 };
                            proof {
                                assert(x.jval()->Obj_0 =~~= v.dv()->Obj_0);
                                assert(x.jval() =~~= v.dv());
                            }
                            Some(x)
                        },
                        _ => {
                            proof {
                                assert forall|x: MaxWithdrawResponse| v.dv() != #[trigger] x.jval() by {
                                    if v.dv() == x.jval() {
                                        assert(v.dv()->Obj_0[0].1 == x.uTokens.jval());
                                        assert(v.dv()->Obj_0[1].1 == x.tokens.jval());
                                    }
                                }
                            }
                            None
                        },
                    }
                } else {
                    proof {
                        assert forall|x: MaxWithdrawResponse| v.dv() != #[trigger] x.jval() by {
                            if v.dv() == x.jval() {
                                assert(v.dv()->Obj_0.len() == 2);
                                assert(v.dv()->Obj_0[0].0 == "uTokens"@);
                                assert(v.dv()->Obj_0[1].0 == "tokens"@);
                            }
                        }
                    }
                    None
                }
            },
            _ => None,
        }
    }
}
/// Every query the leverage module group answers, tagged by kind.
#[derive(Clone, Debug, PartialEq, Eq)]
pub enum UmeeQueryLeverage {
    LeverageParameters(LeverageParametersParams),
    RegisteredTokens(RegisteredTokensParams),
    MarketSummary(MarketSummaryParams),
    AccountBalances(AccountBalancesParams),
    AccountSummary(AccountSummaryParams),
    LiquidationTargets(LiquidationTargetsParams),
    BadDebts(BadDebtsParams),
    MaxWithdraw(MaxWithdrawParams),
}
/// Length and distinguishing characters of every variant key of the
/// wire shape.
proof fn lemma_umee_query_leverage_keys()
    ensures
        "leverage_parameters"@.len() == 19,
        "registered_tokens"@.len() == 17,
        "market_summary"@.len() == 14,
        "account_balances"@.len() == 16,
        "account_summary"@.len() == 15,
        "liquidation_targets"@.len() == 19,
        "bad_debts"@.len() == 9,
        "max_withdraw"@.len() == 12,
        "account_balances"@[0] == 'a',
        "account_summary"@[0] == 'a',
        "bad_debts"@[0] == 'b',
        "leverage_parameters"@[0] == 'l',
        "leverage_parameters"@[1] == 'e',
        "liquidation_targets"@[0] == 'l',
        "liquidation_targets"@[1] == 'i',
        "market_summary"@[0] == 'm',
        "max_withdraw"@[0] == 'm',
        "registered_tokens"@[0] == 'r',
{
    reveal_strlit("leverage_parameters");
    assert("leverage_parameters"@ =~= seq!['l', 'e', 'v', 'e', 'r', 'a', 'g', 'e', '_', 'p', 'a', 'r', 'a', 'm', 'e', 't', 'e', 'r', 's']);
    reveal_strlit("registered_tokens");
    assert("registered_tokens"@ =~= seq!['r', 'e', 'g', 'i', 's', 't', 'e', 'r', 'e', 'd', '_', 't', 'o', 'k', 'e', 'n', 's']);
    reveal_strlit("market_summary");
    assert("market_summary"@ =~= seq!['m', 'a', 'r', 'k', 'e', 't', '_', 's', 'u', 'm', 'm', 'a', 'r', 'y']);
    reveal_strlit("account_balances");
    assert("account_balances"@ =~= seq!['a', 'c', 'c', 'o', 'u', 'n', 't', '_', 'b', 'a', 'l', 'a', 'n', 'c', 'e', 's']);
    reveal_strlit("account_summary");
    assert("account_summary"@ =~= seq!['a', 'c', 'c', 'o', 'u', 'n', 't', '_', 's', 'u', 'm', 'm', 'a', 'r', 'y']);
    reveal_strlit("liquidation_targets");
    assert("liquidation_targets"@ =~= seq!['l', 'i', 'q', 'u', 'i', 'd', 'a', 't', 'i', 'o', 'n', '_', 't', 'a', 'r', 'g', 'e', 't', 's']);
    reveal_strlit("bad_debts");
    assert("bad_debts"@ =~= seq!['b', 'a', 'd', '_', 'd', 'e', 'b', 't', 's']);
    reveal_strlit("max_withdraw");
    assert("max_withdraw"@ =~= seq!['m', 'a', 'x', '_', 'w', 'i', 't', 'h', 'd', 'r', 'a', 'w']);
}

/// Every value's wire record is a single-entry object.
proof fn lemma_umee_query_leverage_shape(x: UmeeQueryLeverage)
    ensures
        x.jval() is Obj,
        x.jval()->Obj_0.len() == 1,
{
    match x {
        UmeeQueryLeverage::LeverageParameters(q) => {
            assert(x.jval()->Obj_0.len() == 1);
        },
        UmeeQueryLeverage::RegisteredTokens(q) => {
            assert(x.jval()->Obj_0.len() == 1);
        },
        UmeeQueryLeverage::MarketSummary(q) => {
            assert(x.jval()->Obj_0.len() == 1);
        },
        UmeeQueryLeverage::AccountBalances(q) => {
            assert(x.jval()->Obj_0.len() == 1);
        },
        UmeeQueryLeverage::AccountSummary(q) => {
            assert(x.jval()->Obj_0.len() == 1);
        },
        UmeeQueryLeverage::LiquidationTargets(q) => {
            assert(x.jval()->Obj_0.len() == 1);
        },
        UmeeQueryLeverage::BadDebts(q) => {
            assert(x.jval()->Obj_0.len() == 1);
        },
        UmeeQueryLeverage::MaxWithdraw(q) => {
            assert(x.jval()->Obj_0.len() == 1);
        },
    }
}

/// A value whose wire record is this single entry is the variant the
/// entry's key names, and the entry's payload is that variant's.
proof fn lemma_umee_query_leverage_tag(x: UmeeQueryLeverage, e: (Seq<char>, JsonSpec))
    requires
        JsonSpec::Obj(seq![e]) == x.jval(),
    ensures
        ({
            ||| (x matches UmeeQueryLeverage::LeverageParameters(q) && e == ("leverage_parameters"@, q.jval()))
            ||| (x matches UmeeQueryLeverage::RegisteredTokens(q) && e == ("registered_tokens"@, q.jval()))
            ||| (x matches UmeeQueryLeverage::MarketSummary(q) && e == ("market_summary"@, q.jval()))
            ||| (x matches UmeeQueryLeverage::AccountBalances(q) && e == ("account_balances"@, q.jval()))
            ||| (x matches UmeeQueryLeverage::AccountSummary(q) && e == ("account_summary"@, q.jval()))
            ||| (x matches UmeeQueryLeverage::LiquidationTargets(q) && e == ("liquidation_targets"@, q.jval()))
            ||| (x matches UmeeQueryLeverage::BadDebts(q) && e == ("bad_debts"@, q.jval()))
            ||| (x matches UmeeQueryLeverage::MaxWithdraw(q) && e == ("max_withdraw"@, q.jval()))
        }),
{
    match x {
        UmeeQueryLeverage::LeverageParameters(q) => {
            assert(x.jval()->Obj_0[0] == ("leverage_parameters"@, q.jval()));
            assert(e == ("leverage_parameters"@, q.jval()));
        },
        UmeeQueryLeverage::RegisteredTokens(q) => {
            assert(x.jval()->Obj_0[0] == ("registered_tokens"@, q.jval()));
            assert(e == ("registered_tokens"@, q.jval()));
        },
        UmeeQueryLeverage::MarketSummary(q) => {
            assert(x.jval()->Obj_0[0] == ("market_summary"@, q.jval()));
            assert(e == ("market_summary"@, q.jval()));
        },
        UmeeQueryLeverage::AccountBalances(q) => {
            assert(x.jval()->Obj_0[0] == ("account_balances"@, q.jval()));
            assert(e == ("account_balances"@, q.jval()));
        },
        UmeeQueryLeverage::AccountSummary(q) => {
            assert(x.jval()->Obj_0[0] == ("account_summary"@, q.jval()));
            assert(e == ("account_summary"@, q.jval()));
        },
        UmeeQueryLeverage::LiquidationTargets(q) => {
            assert(x.jval()->Obj_0[0] == ("liquidation_targets"@, q.jval()));
            assert(e == ("liquidation_targets"@, q.jval()));
        },
        UmeeQueryLeverage::BadDebts(q) => {
            assert(x.jval()->Obj_0[0] == ("bad_debts"@, q.jval()));
            assert(e == ("bad_debts"@, q.jval()));
        },
        UmeeQueryLeverage::MaxWithdraw(q) => {
            assert(x.jval()->Obj_0[0] == ("max_withdraw"@, q.jval()));
            assert(e == ("max_withdraw"@, q.jval()));
        },
    }
}

/// A single-entry wire shape under this key decodes only through its
/// own payload type.
proof fn lemma_umee_query_leverage_reject_leverage_parameters(e: (Seq<char>, JsonSpec))
    requires
        e.0 == "leverage_parameters"@,
        forall|y: LeverageParametersParams| e.1 != #[trigger] y.jval(),
    ensures
        forall|x: UmeeQueryLeverage| JsonSpec::Obj(seq![e]) != #[trigger] x.jval(),
{
    lemma_umee_query_leverage_keys();
    assert forall|x: UmeeQueryLeverage| JsonSpec::Obj(seq![e]) != #[trigger] x.jval() by {
        if JsonSpec::Obj(seq![e]) == x.jval() {
            lemma_umee_query_leverage_tag(x, e);
            match x {
                UmeeQueryLeverage::LeverageParameters(q) => {
                    assert(e.1 == q.jval());
                },
                _ => {},
            }
        }
    }
}

/// A single-entry wire shape under this key decodes only through its
/// own payload type.
proof fn lemma_umee_query_leverage_reject_registered_tokens(e: (Seq<char>, JsonSpec))
    requires
        e.0 == "registered_tokens"@,
        forall|y: RegisteredTokensParams| e.1 != #[trigger] y.jval(),
    ensures
        forall|x: UmeeQueryLeverage| JsonSpec::Obj(seq![e]) != #[trigger] x.jval(),
{
    lemma_umee_query_leverage_keys();
    assert forall|x: UmeeQueryLeverage| JsonSpec::Obj(seq![e]) != #[trigger] x.jval() by {
        if JsonSpec::Obj(seq![e]) == x.jval() {
            lemma_umee_query_leverage_tag(x, e);
            match x {
                UmeeQueryLeverage::RegisteredTokens(q) => {
                    assert(e.1 == q.jval());
                },
                _ => {},
            }
        }
    }
}

/// A single-entry wire shape under this key decodes only through its
/// own payload type.
proof fn lemma_umee_query_leverage_reject_market_summary(e: (Seq<char>, JsonSpec))
    requires
        e.0 == "market_summary"@,
        forall|y: MarketSummaryParams| e.1 != #[trigger] y.jval(),
    ensures
        forall|x: UmeeQueryLeverage| JsonSpec::Obj(seq![e]) != #[trigger] x.jval(),
{
    lemma_umee_query_leverage_keys();
    assert forall|x: UmeeQueryLeverage| JsonSpec::Obj(seq![e]) != #[trigger] x.jval() by {
        if JsonSpec::Obj(seq![e]) == x.jval() {
            lemma_umee_query_leverage_tag(x, e);
            match x {
                UmeeQueryLeverage::MarketSummary(q) => {
                    assert(e.1 == q.jval());
                },
                _ => {},
            }
        }
    }
}

/// A single-entry wire shape under this key decodes only through its
/// own payload type.
proof fn lemma_umee_query_leverage_reject_account_balances(e: (Seq<char>, JsonSpec))
    requires
        e.0 == "account_balances"@,
        forall|y: AccountBalancesParams| e.1 != #[trigger] y.jval(),
    ensures
        forall|x: UmeeQueryLeverage| JsonSpec::Obj(seq![e]) != #[trigger] x.jval(),
{
    lemma_umee_query_leverage_keys();
    assert forall|x: UmeeQueryLeverage| JsonSpec::Obj(seq![e]) != #[trigger] x.jval() by {
        if JsonSpec::Obj(seq![e]) == x.jval() {
            lemma_umee_query_leverage_tag(x, e);
            match x {
                UmeeQueryLeverage::AccountBalances(q) => {
                    assert(e.1 == q.jval());
                },
                _ => {},
            }
        }
    }
}

/// A single-entry wire shape under this key decodes only through its
/// own payload type.
proof fn lemma_umee_query_leverage_reject_account_summary(e: (Seq<char>, JsonSpec))
    requires
        e.0 == "account_summary"@,
        forall|y: AccountSummaryParams| e.1 != #[trigger] y.jval(),
    ensures
        forall|x: UmeeQueryLeverage| JsonSpec::Obj(seq![e]) != #[trigger] x.jval(),
{
    lemma_umee_query_leverage_keys();
    assert forall|x: UmeeQueryLeverage| JsonSpec::Obj(seq![e]) != #[trigger] x.jval() by {
        if JsonSpec::Obj(seq![e]) == x.jval() {
            lemma_umee_query_leverage_tag(x, e);
            match x {
                UmeeQueryLeverage::AccountSummary(q) => {
                    assert(e.1 == q.jval());
                },
                _ => {},
            }
        }
    }
}

/// A single-entry wire shape under this key decodes only through its
/// own payload type.
proof fn lemma_umee_query_leverage_reject_liquidation_targets(e: (Seq<char>, JsonSpec))
    requires
        e.0 == "liquidation_targets"@,
        forall|y: LiquidationTargetsParams| e.1 != #[trigger] y.jval(),
    ensures
        forall|x: UmeeQueryLeverage| JsonSpec::Obj(seq![e]) != #[trigger] x.jval(),
{
    lemma_umee_query_leverage_keys();
    assert forall|x: UmeeQueryLeverage| JsonSpec::Obj(seq![e]) != #[trigger] x.jval() by {
        if JsonSpec::Obj(seq![e]) == x.jval() {
            lemma_umee_query_leverage_tag(x, e);
            match x {
                UmeeQueryLeverage::LiquidationTargets(q) => {
                    assert(e.1 == q.jval());
                },
                _ => {},
            }
        }
    }
}

/// A single-entry wire shape under this key decodes only through its
/// own payload type.
proof fn lemma_umee_query_leverage_reject_bad_debts(e: (Seq<char>, JsonSpec))
    requires
        e.0 == "bad_debts"@,
        forall|y: BadDebtsParams| e.1 != #[trigger] y.jval(),
    ensures
        forall|x: UmeeQueryLeverage| JsonSpec::Obj(seq![e]) != #[trigger] x.jval(),
{
    lemma_umee_query_leverage_keys();
    assert forall|x: UmeeQueryLeverage| JsonSpec::Obj(seq![e]) != #[trigger] x.jval() by {
        if JsonSpec::Obj(seq![e]) == x.jval() {
            lemma_umee_query_leverage_tag(x, e);
            match x {
                UmeeQueryLeverage::BadDebts(q) => {
                    assert(e.1 == q.jval());
                },
                _ => {},
            }
        }
    }
}

/// A single-entry wire shape under this key decodes only through its
/// own payload type.
proof fn lemma_umee_query_leverage_reject_max_withdraw(e: (Seq<char>, JsonSpec))
    requires
        e.0 == "max_withdraw"@,
        forall|y: MaxWithdrawParams| e.1 != #[trigger] y.jval(),
    ensures
        forall|x: UmeeQueryLeverage| JsonSpec::Obj(seq![e]) != #[trigger] x.jval(),
{
    lemma_umee_query_leverage_keys();
    assert forall|x: UmeeQueryLeverage| JsonSpec::Obj(seq![e]) != #[trigger] x.jval() by {
        if JsonSpec::Obj(seq![e]) == x.jval() {
            lemma_umee_query_leverage_tag(x, e);
            match x {
                UmeeQueryLeverage::MaxWithdraw(q) => {
                    assert(e.1 == q.jval());
                },
                _ => {},
            }
        }
    }
}

/// A single-entry wire shape under an unknown key decodes to nothing.
proof fn lemma_umee_query_leverage_reject_other(e: (Seq<char>, JsonSpec))
    requires
        e.0 != "leverage_parameters"@,
        e.0 != "registered_tokens"@,
        e.0 != "market_summary"@,
        e.0 != "account_balances"@,
        e.0 != "account_summary"@,
        e.0 != "liquidation_targets"@,
        e.0 != "bad_debts"@,
        e.0 != "max_withdraw"@,
    ensures
        forall|x: UmeeQueryLeverage| JsonSpec::Obj(seq![e]) != #[trigger] x.jval(),
{
    assert forall|x: UmeeQueryLeverage| JsonSpec::Obj(seq![e]) != #[trigger] x.jval() by {
        if JsonSpec::Obj(seq![e]) == x.jval() {
            lemma_umee_query_leverage_tag(x, e);
        }
    }
}

impl WireRecord for UmeeQueryLeverage {
    open spec fn jval(self) -> JsonSpec {
        match self {
            UmeeQueryLeverage::LeverageParameters(p) => JsonSpec::Obj(seq![("leverage_parameters"@, p.jval())]),
            UmeeQueryLeverage::RegisteredTokens(p) => JsonSpec::Obj(seq![("registered_tokens"@, p.jval())]),
            UmeeQueryLeverage::MarketSummary(p) => JsonSpec::Obj(seq![("market_summary"@, p.jval())]),
            UmeeQueryLeverage::AccountBalances(p) => JsonSpec::Obj(seq![("account_balances"@, p.jval())]),
            UmeeQueryLeverage::AccountSummary(p) => JsonSpec::Obj(seq![("account_summary"@, p.jval())]),
            UmeeQueryLeverage::LiquidationTargets(p) => JsonSpec::Obj(seq![("liquidation_targets"@, p.jval())]),
            UmeeQueryLeverage::BadDebts(p) => JsonSpec::Obj(seq![("bad_debts"@, p.jval())]),
            UmeeQueryLeverage::MaxWithdraw(p) => JsonSpec::Obj(seq![("max_withdraw"@, p.jval())]),
        }
    }

    proof fn jval_wf(self) {
        match self {
            UmeeQueryLeverage::LeverageParameters(p) => {
                p.jval_wf();
                assert forall|k: int| 0 <= k < self.jval()->Obj_0.len() implies json_wf(
                    #[trigger] self.jval()->Obj_0[k].1,
                ) by {
                    assert(json_wf(self.jval()->Obj_0[0].1));
                }
            },
            UmeeQueryLeverage::RegisteredTokens(p) => {
                p.jval_wf();
                assert forall|k: int| 0 <= k < self.jval()->Obj_0.len() implies json_wf(
                    #[trigger] self.jval()->Obj_0[k].1,
                ) by {
                    assert(json_wf(self.jval()->Obj_0[0].1));
                }
            },
            UmeeQueryLeverage::MarketSummary(p) => {
                p.jval_wf();
                assert forall|k: int| 0 <= k < self.jval()->Obj_0.len() implies json_wf(
                    #[trigger] self.jval()->Obj_0[k].1,
                ) by {
                    assert(json_wf(self.jval()->Obj_0[0].1));
                }
            },
            UmeeQueryLeverage::AccountBalances(p) => {
                p.jval_wf();
                assert forall|k: int| 0 <= k < self.jval()->Obj_0.len() implies json_wf(
                    #[trigger] self.jval()->Obj_0[k].1,
                ) by {
                    assert(json_wf(self.jval()->Obj_0[0].1));
                }
            },
            UmeeQueryLeverage::AccountSummary(p) => {
                p.jval_wf();
                assert forall|k: int| 0 <= k < self.jval()->Obj_0.len() implies json_wf(
                    #[trigger] self.jval()->Obj_0[k].1,
                ) by {
                    assert(json_wf(self.jval()->Obj_0[0].1));
                }
            },
            UmeeQueryLeverage::LiquidationTargets(p) => {
                p.jval_wf();
                assert forall|k: int| 0 <= k < self.jval()->Obj_0.len() implies json_wf(
                    #[trigger] self.jval()->Obj_0[k].1,
                ) by {
                    assert(json_wf(self.jval()->Obj_0[0].1));
                }
            },
            UmeeQueryLeverage::BadDebts(p) => {
                p.jval_wf();
                assert forall|k: int| 0 <= k < self.jval()->Obj_0.len() implies json_wf(
                    #[trigger] self.jval()->Obj_0[k].1,
                ) by {
                    assert(json_wf(self.jval()->Obj_0[0].1));
                }
            },
            UmeeQueryLeverage::MaxWithdraw(p) => {
                p.jval_wf();
                assert forall|k: int| 0 <= k < self.jval()->Obj_0.len() implies json_wf(
                    #[trigger] self.jval()->Obj_0[k].1,
                ) by {
                    assert(json_wf(self.jval()->Obj_0[0].1));
                }
            },
        }
    }

    fn build_jval(&self) -> (r: JsonVal) {
        match self {
            UmeeQueryLeverage::LeverageParameters(p) => {
                let mut entries: Vec<JsonEntry> = Vec::new();
                entries.push(JsonEntry { key: String::from_str("leverage_parameters"), val: p.build_jval() });
                let ghost ges = entries@;
                let r = JsonVal::Obj(entries);
                proof {
                    assert(r.dv()->Obj_0[0] == (ges[0].key@, ges[0].val.dv()));
                    assert(r.dv()->Obj_0 =~~= self.jval()->Obj_0);
                    assert(r.dv() =~~= self.jval());
                    assert(ges[0].val.wf());
                }
                r
            },
            UmeeQueryLeverage::RegisteredTokens(p) => {
                let mut entries: Vec<JsonEntry> = Vec::new();
                entries.push(JsonEntry { key: String::from_str("registered_tokens"), val: p.build_jval() });
                let ghost ges = entries@;
                let r = JsonVal::Obj(entries);
                proof {
                    assert(r.dv()->Obj_0[0] == (ges[0].key@, ges[0].val.dv()));
                    assert(r.dv()->Obj_0 =~~= self.jval()->Obj_0);
                    assert(r.dv() =~~= self.jval());
                    assert(ges[0].val.wf());
                }
                r
            },
            UmeeQueryLeverage::MarketSummary(p) => {
                let mut entries: Vec<JsonEntry> = Vec::new();
                entries.push(JsonEntry { key: String::from_str("market_summary"), val: p.build_jval() });
                let ghost ges = entries@;
                let r = JsonVal::Obj(entries);
                proof {
                    assert(r.dv()->Obj_0[0] == (ges[0].key@, ges[0].val.dv()));
                    assert(r.dv()->Obj_0 =~~= self.jval()->Obj_0);
                    assert(r.dv() =~~= self.jval());
                    assert(ges[0].val.wf());
                }
                r
            },
            UmeeQueryLeverage::AccountBalances(p) => {
                let mut entries: Vec<JsonEntry> = Vec::new();
                entries.push(JsonEntry { key: String::from_str("account_balances"), val: p.build_jval() });
                let ghost ges = entries@;
                let r = JsonVal::Obj(entries);
                proof {
                    assert(r.dv()->Obj_0[0] == (ges[0].key@, ges[0].val.dv()));
                    assert(r.dv()->Obj_0 =~~= self.jval()->Obj_0);
                    assert(r.dv() =~~= self.jval());
                    assert(ges[0].val.wf());
                }
                r
            },
            UmeeQueryLeverage::AccountSummary(p) => {
                let mut entries: Vec<JsonEntry> = Vec::new();
                entries.push(JsonEntry { key: String::from_str("account_summary"), val: p.build_jval() });
                let ghost ges = entries@;
                let r = JsonVal::Obj(entries);
                proof {
                    assert(r.dv()->Obj_0[0] == (ges[0].key@, ges[0].val.dv()));
                    assert(r.dv()->Obj_0 =~~= self.jval()->Obj_0);
                    assert(r.dv() =~~= self.jval());
                    assert(ges[0].val.wf());
                }
                r
            },
            UmeeQueryLeverage::LiquidationTargets(p) => {
                let mut entries: Vec<JsonEntry> = Vec::new();
                entries.push(JsonEntry { key: String::from_str("liquidation_targets"), val: p.build_jval() });
                let ghost ges = entries@;
                let r = JsonVal::Obj(entries);
                proof {
                    assert(r.dv()->Obj_0[0] == (ges[0].key@, ges[0].val.dv()));
                    assert(r.dv()->Obj_0 =~~= self.jval()->Obj_0);
                    assert(r.dv() =~~= self.jval());
                    assert(ges[0].val.wf());
                }
                r
            },
            UmeeQueryLeverage::BadDebts(p) => {
                let mut entries: Vec<JsonEntry> = Vec::new();
                entries.push(JsonEntry { key: String::from_str("bad_debts"), val: p.build_jval() });
                let ghost ges = entries@;
                let r = JsonVal::Obj(entries);
                proof {
                    assert(r.dv()->Obj_0[0] == (ges[0].key@, ges[0].val.dv()));
                    assert(r.dv()->Obj_0 =~~= self.jval()->Obj_0);
                    assert(r.dv() =~~= self.jval());
                    assert(ges[0].val.wf());
                }
                r
            },
            UmeeQueryLeverage::MaxWithdraw(p) => {
                let mut entries: Vec<JsonEntry> = Vec::new();
                entries.push(JsonEntry { key: String::from_str("max_withdraw"), val: p.build_jval() });
                let ghost ges = entries@;
                let r = JsonVal::Obj(entries);
                proof {
                    assert(r.dv()->Obj_0[0] == (ges[0].key@, ges[0].val.dv()));
                    assert(r.dv()->Obj_0 =~~= self.jval()->Obj_0);
                    assert(r.dv() =~~= self.jval());
                    assert(ges[0].val.wf());
                }
                r
            },
        }
    }

    fn from_jval(v: &JsonVal) -> (r: Option<UmeeQueryLeverage>) {
        match v {
            JsonVal::Obj(entries) => {
                if entries.len() == 1 {
                    proof {
                        assert(v.dv()->Obj_0[0] == (entries@[0].key@, entries@[0].val.dv()));
                        assert(v.dv()->Obj_0 =~~= seq![(entries@[0].key@, entries@[0].val.dv())]);
                        assert(v.dv() =~~= JsonSpec::Obj(seq![(entries@[0].key@, entries@[0].val.dv())]));
                    }
                    let key = entries[0].key.as_str();
                    if str_eq(key, "leverage_parameters") {
                        match WireRecord::from_jval(&entries[0].val) {
                            Some(p) => {
                                let x = UmeeQueryLeverage::LeverageParameters(p);
                                proof {
                                    assert(x.jval()->Obj_0 =~~= v.dv()->Obj_0);
                                    assert(x.jval() =~~= v.dv());
                                }
                                Some(x)
                            },
                            None => {
                                proof {
                                    lemma_umee_query_leverage_reject_leverage_parameters((entries@[0].key@, entries@[0].val.dv()));
                                }
                                None
                            },
                        }
                    } else if str_eq(key, "registered_tokens") {
                        match WireRecord::from_jval(&entries[0].val) {
                            Some(p) => {
                                let x = UmeeQueryLeverage::RegisteredTokens(p);
                                proof {
                                    assert(x.jval()->Obj_0 =~~= v.dv()->Obj_0);
                                    assert(x.jval() =~~= v.dv());
                                }
                                Some(x)
                            },
                            None => {
                                proof {
                                    lemma_umee_query_leverage_reject_registered_tokens((entries@[0].key@, entries@[0].val.dv()));
                                }
                                None
                            },
                        }
                    } else if str_eq(key, "market_summary") {
                        match WireRecord::from_jval(&entries[0].val) {
                            Some(p) => {
                                let x = UmeeQueryLeverage::MarketSummary(p);
                                proof {
                                    assert(x.jval()->Obj_0 =~~= v.dv()->Obj_0);
                                    assert(x.jval() =~~= v.dv());
                                }
                                Some(x)
                            },
                            None => {
                                proof {
                                    lemma_umee_query_leverage_reject_market_summary((entries@[0].key@, entries@[0].val.dv()));
                                }
                                None
                            },
                        }
                    } else if str_eq(key, "account_balances") {
                        match WireRecord::from_jval(&entries[0].val) {
                            Some(p) => {
                                let x = UmeeQueryLeverage::AccountBalances(p);
                                proof {
                                    assert(x.jval()->Obj_0 =~~= v.dv()->Obj_0);
                                    assert(x.jval() =~~= v.dv());
                                }
                                Some(x)
                            },
                            None => {
                                proof {
                                    lemma_umee_query_leverage_reject_account_balances((entries@[0].key@, entries@[0].val.dv()));
                                }
                                None
                            },
                        }
                    } else if str_eq(key, "account_summary") {
                        match WireRecord::from_jval(&entries[0].val) {
                            Some(p) => {
                                let x = UmeeQueryLeverage::AccountSummary(p);
                                proof {
                                    assert(x.jval()->Obj_0 =~~= v.dv()->Obj_0);
                                    assert(x.jval() =~~= v.dv());
                                }
                                Some(x)
                            },
                            None => {
                                proof {
                                    lemma_umee_query_leverage_reject_account_summary((entries@[0].key@, entries@[0].val.dv()));
                                }
                                None
                            },
                        }
                    } else if str_eq(key, "liquidation_targets") {
                        match WireRecord::from_jval(&entries[0].val) {
                            Some(p) => {
                                let x = UmeeQueryLeverage::LiquidationTargets(p);
                                proof {
                                    assert(x.jval()->Obj_0 =~~= v.dv()->Obj_0);
                                    assert(x.jval() =~~= v.dv());
                                }
                                Some(x)
                            },
                            None => {
                                proof {
                                    lemma_umee_query_leverage_reject_liquidation_targets((entries@[0].key@, entries@[0].val.dv()));
                                }
                                None
                            },
                        }
                    } else if str_eq(key, "bad_debts") {
                        match WireRecord::from_jval(&entries[0].val) {
                            Some(p) => {
                                let x = UmeeQueryLeverage::BadDebts(p);
                                proof {
                                    assert(x.jval()->Obj_0 =~~= v.dv()->Obj_0);
                                    assert(x.jval() =~~= v.dv());
                                }
                                Some(x)
                            },
                            None => {
                                proof {
                                    lemma_umee_query_leverage_reject_bad_debts((entries@[0].key@, entries@[0].val.dv()));
                                }
                                None
                            },
                        }
                    } else if str_eq(key, "max_withdraw") {
                        match WireRecord::from_jval(&entries[0].val) {
                            Some(p) => {
                                let x = UmeeQueryLeverage::MaxWithdraw(p);
                                proof {
                                    assert(x.jval()->Obj_0 =~~= v.dv()->Obj_0);
                                    assert(x.jval() =~~= v.dv());
                                }
                                Some(x)
                            },
                            None => {
                                proof {
                                    lemma_umee_query_leverage_reject_max_withdraw((entries@[0].key@, entries@[0].val.dv()));
                                }
                                None
                            },
                        }
                    } else {
                        proof {
                            lemma_umee_query_leverage_reject_other((entries@[0].key@, entries@[0].val.dv()));
                        }
                        None
                    }
                } else {
                    proof {
                        assert forall|x: UmeeQueryLeverage| v.dv() != #[trigger] x.jval() by {
                            lemma_umee_query_leverage_shape(x);
                        }
                    }
                    None
                }
            },
            _ => {
                proof {
                    assert forall|x: UmeeQueryLeverage| v.dv() != #[trigger] x.jval() by {
                        lemma_umee_query_leverage_shape(x);
                    }
                }
                None
            },
        }
    }
}
} // verus!
