//! The registered-token descriptor of the leverage module group.
use vstd::prelude::*;

use crate::base::Decimal;
use crate::record::WireRecord;
use crate::wire::{json_wf, str_eq, JsonEntry, JsonSpec, JsonVal};

verus! {

broadcast use vstd::string::group_string_axioms;

/// A registered token and its capital-facility parameters.
#[derive(Clone, Debug, PartialEq, Eq)]
pub struct Token {
    pub base_denom: Option<String>,
    pub reserve_factor: Decimal,
    pub collateral_weight: Decimal,
    pub liquidation_threshold: Decimal,
    pub base_borrow_rate: Decimal,
    pub kink_borrow_rate: Decimal,
    pub max_borrow_rate: Decimal,
    pub kink_utilization: Decimal,
    pub liquidation_incentive: Decimal,
    pub symbol_denom: Option<String>,
    pub exponent: u32,
    pub enable_msg_supply: Option<bool>,
    pub enable_msg_borrow: Option<bool>,
    pub blacklist: Option<bool>,
    pub max_collateral_share: Decimal,
    pub max_supply_utilization: Decimal,
    pub min_collateral_liquidity: Decimal,
    pub max_supply: Decimal,
    pub historic_medians: u32,
}
impl WireRecord for Token {
    open spec fn jval(self) -> JsonSpec {
        JsonSpec::Obj(
            seq![
                ("base_denom"@, self.base_denom.jval()),
                ("reserve_factor"@, self.reserve_factor.jval()),
                ("collateral_weight"@, self.collateral_weight.jval()),
                ("liquidation_threshold"@, self.liquidation_threshold.jval()),
                ("base_borrow_rate"@, self.base_borrow_rate.jval()),
                ("kink_borrow_rate"@, self.kink_borrow_rate.jval()),
                ("max_borrow_rate"@, self.max_borrow_rate.jval()),
                ("kink_utilization"@, self.kink_utilization.jval()),
                ("liquidation_incentive"@, self.liquidation_incentive.jval()),
                ("symbol_denom"@, self.symbol_denom.jval()),
                ("exponent"@, self.exponent.jval()),
                ("enable_msg_supply"@, self.enable_msg_supply.jval()),
                ("enable_msg_borrow"@, self.enable_msg_borrow.jval()),
                ("blacklist"@, self.blacklist.jval()),
                ("max_collateral_share"@, self.max_collateral_share.jval()),
                ("max_supply_utilization"@, self.max_supply_utilization.jval()),
                ("min_collateral_liquidity"@, self.min_collateral_liquidity.jval()),
                ("max_supply"@, self.max_supply.jval()),
                ("historic_medians"@, self.historic_medians.jval()),
            ],
        )
    }

    proof fn jval_wf(self) {
        self.base_denom.jval_wf();
        self.reserve_factor.jval_wf();
        self.collateral_weight.jval_wf();
        self.liquidation_threshold.jval_wf();
        self.base_borrow_rate.jval_wf();
        self.kink_borrow_rate.jval_wf();
        self.max_borrow_rate.jval_wf();
        self.kink_utilization.jval_wf();
        self.liquidation_incentive.jval_wf();
        self.symbol_denom.jval_wf();
        self.exponent.jval_wf();
        self.enable_msg_supply.jval_wf();
        self.enable_msg_borrow.jval_wf();
        self.blacklist.jval_wf();
        self.max_collateral_share.jval_wf();
        self.max_supply_utilization.jval_wf();
        self.min_collateral_liquidity.jval_wf();
        self.max_supply.jval_wf();
        self.historic_medians.jval_wf();
        assert forall|k: int| 0 <= k < self.jval()->Obj_0.len() implies json_wf(
            #[trigger] self.jval()->Obj_0[k].1,
        ) by {
            if k == 0 {
                assert(json_wf(self.jval()->Obj_0[0].1));
            }
            if k == 1 {
                assert(json_wf(self.jval()->Obj_0[1].1));
            }
            if k == 2 {
                assert(json_wf(self.jval()->Obj_0[2].1));
            }
            if k == 3 {
                assert(json_wf(self.jval()->Obj_0[3].1));
            }
            if k == 4 {
                assert(json_wf(self.jval()->Obj_0[4].1));
            }
            if k == 5 {
                assert(json_wf(self.jval()->Obj_0[5].1));
            }
            if k == 6 {
                assert(json_wf(self.jval()->Obj_0[6].1));
            }
            if k == 7 {
                assert(json_wf(self.jval()->Obj_0[7].1));
            }
            if k == 8 {
                assert(json_wf(self.jval()->Obj_0[8].1));
            }
            if k == 9 {
                assert(json_wf(self.jval()->Obj_0[9].1));
            }
            if k == 10 {
                assert(json_wf(self.jval()->Obj_0[10].1));
            }
            if k == 11 {
                assert(json_wf(self.jval()->Obj_0[11].1));
            }
            if k == 12 {
                assert(json_wf(self.jval()->Obj_0[12].1));
            }
            if k == 13 {
                assert(json_wf(self.jval()->Obj_0[13].1));
            }
            if k == 14 {
                assert(json_wf(self.jval()->Obj_0[14].1));
            }
            if k == 15 {
                assert(json_wf(self.jval()->Obj_0[15].1));
            }
            if k == 16 {
                assert(json_wf(self.jval()->Obj_0[16].1));
            }
            if k == 17 {
                assert(json_wf(self.jval()->Obj_0[17].1));
            }
            if k == 18 {
                assert(json_wf(self.jval()->Obj_0[18].1));
            }
        }
    }

    fn build_jval(&self) -> (r: JsonVal) {
        let mut entries: Vec<JsonEntry> = Vec::new();
        entries.push(JsonEntry { key: String::from_str("base_denom"), val: self.base_denom.build_jval() });
        entries.push(JsonEntry { key: String::from_str("reserve_factor"), val: self.reserve_factor.build_jval() });
        entries.push(JsonEntry { key: String::from_str("collateral_weight"), val: self.collateral_weight.build_jval() });
        entries.push(JsonEntry { key: String::from_str("liquidation_threshold"), val: self.liquidation_threshold.build_jval() });
        entries.push(JsonEntry { key: String::from_str("base_borrow_rate"), val: self.base_borrow_rate.build_jval() });
        entries.push(JsonEntry { key: String::from_str("kink_borrow_rate"), val: self.kink_borrow_rate.build_jval() });
        entries.push(JsonEntry { key: String::from_str("max_borrow_rate"), val: self.max_borrow_rate.build_jval() });
        entries.push(JsonEntry { key: String::from_str("kink_utilization"), val: self.kink_utilization.build_jval() });
        entries.push(JsonEntry { key: String::from_str("liquidation_incentive"), val: self.liquidation_incentive.build_jval() });
        entries.push(JsonEntry { key: String::from_str("symbol_denom"), val: self.symbol_denom.build_jval() });
        entries.push(JsonEntry { key: String::from_str("exponent"), val: self.exponent.build_jval() });
        entries.push(JsonEntry { key: String::from_str("enable_msg_supply"), val: self.enable_msg_supply.build_jval() });
        entries.push(JsonEntry { key: String::from_str("enable_msg_borrow"), val: self.enable_msg_borrow.build_jval() });
        entries.push(JsonEntry { key: String::from_str("blacklist"), val: self.blacklist.build_jval() });
        entries.push(JsonEntry { key: String::from_str("max_collateral_share"), val: self.max_collateral_share.build_jval() });
        entries.push(JsonEntry { key: String::from_str("max_supply_utilization"), val: self.max_supply_utilization.build_jval() });
        entries.push(JsonEntry { key: String::from_str("min_collateral_liquidity"), val: self.min_collateral_liquidity.build_jval() });
        entries.push(JsonEntry { key: String::from_str("max_supply"), val: self.max_supply.build_jval() });
        entries.push(JsonEntry { key: String::from_str("historic_medians"), val: self.historic_medians.build_jval() });
        let ghost ges = entries@;
        let r = JsonVal::Obj(entries);
        proof {
            let dvs = r.dv()->Obj_0;
            assert(dvs.len() == 19);
            assert(dvs[0] == (ges[0].key@, ges[0].val.dv()));
            assert(dvs[1] == (ges[1].key@, ges[1].val.dv()));
            assert(dvs[2] == (ges[2].key@, ges[2].val.dv()));
            assert(dvs[3] == (ges[3].key@, ges[3].val.dv()));
            assert(dvs[4] == (ges[4].key@, ges[4].val.dv()));
            assert(dvs[5] == (ges[5].key@, ges[5].val.dv()));
            assert(dvs[6] == (ges[6].key@, ges[6].val.dv()));
            assert(dvs[7] == (ges[7].key@, ges[7].val.dv()));
            assert(dvs[8] == (ges[8].key@, ges[8].val.dv()));
            assert(dvs[9] == (ges[9].key@, ges[9].val.dv()));
            assert(dvs[10] == (ges[10].key@, ges[10].val.dv()));
            assert(dvs[11] == (ges[11].key@, ges[11].val.dv()));
            assert(dvs[12] == (ges[12].key@, ges[12].val.dv()));
            assert(dvs[13] == (ges[13].key@, ges[13].val.dv()));
            assert(dvs[14] == (ges[14].key@, ges[14].val.dv()));
            assert(dvs[15] == (ges[15].key@, ges[15].val.dv()));
            assert(dvs[16] == (ges[16].key@, ges[16].val.dv()));
            assert(dvs[17] == (ges[17].key@, ges[17].val.dv()));
            assert(dvs[18] == (ges[18].key@, ges[18].val.dv()));
            assert(r.dv()->Obj_0 =~~= self.jval()->Obj_0);
            assert(r.dv() =~~= self.jval());
            assert(ges[0].val.wf());
            assert(ges[1].val.wf());
            assert(ges[2].val.wf());
            assert(ges[3].val.wf());
            assert(ges[4].val.wf());
            assert(ges[5].val.wf());
            assert(ges[6].val.wf());
            assert(ges[7].val.wf());
            assert(ges[8].val.wf());
            assert(ges[9].val.wf());
            assert(ges[10].val.wf());
            assert(ges[11].val.wf());
            assert(ges[12].val.wf());
            assert(ges[13].val.wf());
            assert(ges[14].val.wf());
            assert(ges[15].val.wf());
            assert(ges[16].val.wf());
            assert(ges[17].val.wf());
            assert(ges[18].val.wf());
        }
        r
    }

    fn from_jval(v: &JsonVal) -> (r: Option<Token>) {
        match v {
            JsonVal::Obj(entries) => {
                let shape = entries.len() == 19 && str_eq(entries[0].key.as_str(), "base_denom") && str_eq(entries[1].key.as_str(), "reserve_factor") && str_eq(entries[2].key.as_str(), "collateral_weight") && str_eq(entries[3].key.as_str(), "liquidation_threshold") && str_eq(entries[4].key.as_str(), "base_borrow_rate") && str_eq(entries[5].key.as_str(), "kink_borrow_rate") && str_eq(entries[6].key.as_str(), "max_borrow_rate") && str_eq(entries[7].key.as_str(), "kink_utilization") && str_eq(entries[8].key.as_str(), "liquidation_incentive") && str_eq(entries[9].key.as_str(), "symbol_denom") && str_eq(entries[10].key.as_str(), "exponent") && str_eq(entries[11].key.as_str(), "enable_msg_supply") && str_eq(entries[12].key.as_str(), "enable_msg_borrow") && str_eq(entries[13].key.as_str(), "blacklist") && str_eq(entries[14].key.as_str(), "max_collateral_share") && str_eq(entries[15].key.as_str(), "max_supply_utilization") && str_eq(entries[16].key.as_str(), "min_collateral_liquidity") && str_eq(entries[17].key.as_str(), "max_supply") && str_eq(entries[18].key.as_str(), "historic_medians");
                proof {
                    let dvs = v.dv()->Obj_0;
                    assert(dvs.len() == entries@.len());
                    if entries@.len() == 19 {
                        assert(dvs[0] == (entries@[0].key@, entries@[0].val.dv()));
                        assert(dvs[1] == (entries@[1].key@, entries@[1].val.dv()));
                        assert(dvs[2] == (entries@[2].key@, entries@[2].val.dv()));
                        assert(dvs[3] == (entries@[3].key@, entries@[3].val.dv()));
                        assert(dvs[4] == (entries@[4].key@, entries@[4].val.dv()));
                        assert(dvs[5] == (entries@[5].key@, entries@[5].val.dv()));
                        assert(dvs[6] == (entries@[6].key@, entries@[6].val.dv()));
                        assert(dvs[7] == (entries@[7].key@, entries@[7].val.dv()));
                        assert(dvs[8] == (entries@[8].key@, entries@[8].val.dv()));
                        assert(dvs[9] == (entries@[9].key@, entries@[9].val.dv()));
                        assert(dvs[10] == (entries@[10].key@, entries@[10].val.dv()));
                        assert(dvs[11] == (entries@[11].key@, entries@[11].val.dv()));
                        assert(dvs[12] == (entries@[12].key@, entries@[12].val.dv()));
                        assert(dvs[13] == (entries@[13].key@, entries@[13].val.dv()));
                        assert(dvs[14] == (entries@[14].key@, entries@[14].val.dv()));
                        assert(dvs[15] == (entries@[15].key@, entries@[15].val.dv()));
                        assert(dvs[16] == (entries@[16].key@, entries@[16].val.dv()));
                        assert(dvs[17] == (entries@[17].key@, entries@[17].val.dv()));
                        assert(dvs[18] == (entries@[18].key@, entries@[18].val.dv()));
                    }
                }
                if shape {
                    let g0: Option<Option<String>> = WireRecord::from_jval(&entries[0].val);
                    let g1: Option<Decimal> = WireRecord::from_jval(&entries[1].val);
                    let g2: Option<Decimal> = WireRecord::from_jval(&entries[2].val);
                    let g3: Option<Decimal> = WireRecord::from_jval(&entries[3].val);
                    let g4: Option<Decimal> = WireRecord::from_jval(&entries[4].val);
                    let g5: Option<Decimal> = WireRecord::from_jval(&entries[5].val);
                    let g6: Option<Decimal> = WireRecord::from_jval(&entries[6].val);
                    let g7: Option<Decimal> = WireRecord::from_jval(&entries[7].val);
                    let g8: Option<Decimal> = WireRecord::from_jval(&entries[8].val);
                    let g9: Option<Option<String>> = WireRecord::from_jval(&entries[9].val);
                    let g10: Option<u32> = WireRecord::from_jval(&entries[10].val);
                    let g11: Option<Option<bool>> = WireRecord::from_jval(&entries[11].val);
                    let g12: Option<Option<bool>> = WireRecord::from_jval(&entries[12].val);
                    let g13: Option<Option<bool>> = WireRecord::from_jval(&entries[13].val);
                    let g14: Option<Decimal> = WireRecord::from_jval(&entries[14].val);
                    let g15: Option<Decimal> = WireRecord::from_jval(&entries[15].val);
                    let g16: Option<Decimal> = WireRecord::from_jval(&entries[16].val);
                    let g17: Option<Decimal> = WireRecord::from_jval(&entries[17].val);
                    let g18: Option<u32> = WireRecord::from_jval(&entries[18].val);
                    match (g0, g1, g2, g3, g4, g5, g6, g7, g8, g9, g10, g11, g12, g13, g14, g15, g16, g17, g18) {
                        (Some(h0), Some(h1), Some(h2), Some(h3), Some(h4), Some(h5), Some(h6), Some(h7), Some(h8), Some(h9), Some(h10), Some(h11), Some(h12), Some(h13), Some(h14), Some(h15), Some(h16), Some(h17), Some(h18)) => {
                            let x = Token { base_denom: h0, reserve_factor: h1, collateral_weight: h2, liquidation_threshold: h3, base_borrow_rate: h4, kink_borrow_rate: h5, max_borrow_rate: h6, kink_utilization: h7, liquidation_incentive: h8, symbol_denom: h9, exponent: h10, enable_msg_supply: h11, enable_msg_borrow: h12, blacklist: h13, max_collateral_share: h14, max_supply_utilization: h15, min_collateral_liquidity: h16, max_supply: h17, historic_medians: h18 };
                            proof {
                                assert(x.jval()->Obj_0 =~~= v.dv()->Obj_0);
                                assert(x.jval() =~~= v.dv());
                            }
                            Some(x)
                        },
                        _ => {
                            proof {
                                assert forall|x: Token| v.dv() != #[trigger] x.jval() by {
                                    if v.dv() == x.jval() {
                                        assert(v.dv()->Obj_0[0].1 == x.base_denom.jval());
                                        assert(v.dv()->Obj_0[1].1 == x.reserve_factor.jval());
                                        assert(v.dv()->Obj_0[2].1 == x.collateral_weight.jval());
                                        assert(v.dv()->Obj_0[3].1 == x.liquidation_threshold.jval());
                                        assert(v.dv()->Obj_0[4].1 == x.base_borrow_rate.jval());
                                        assert(v.dv()->Obj_0[5].1 == x.kink_borrow_rate.jval());
                                        assert(v.dv()->Obj_0[6].1 == x.max_borrow_rate.jval());
                                        assert(v.dv()->Obj_0[7].1 == x.kink_utilization.jval());
                                        assert(v.dv()->Obj_0[8].1 == x.liquidation_incentive.jval());
                                        assert(v.dv()->Obj_0[9].1 == x.symbol_denom.jval());
                                        assert(v.dv()->Obj_0[10].1 == x.exponent.jval());
                                        assert(v.dv()->Obj_0[11].1 == x.enable_msg_supply.jval());
                                        assert(v.dv()->Obj_0[12].1 == x.enable_msg_borrow.jval());
                                        assert(v.dv()->Obj_0[13].1 == x.blacklist.jval());
                                        assert(v.dv()->Obj_0[14].1 == x.max_collateral_share.jval());
                                        assert(v.dv()->Obj_0[15].1 == x.max_supply_utilization.jval());
                                        assert(v.dv()->Obj_0[16].1 == x.min_collateral_liquidity.jval());
                                        assert(v.dv()->Obj_0[17].1 == x.max_supply.jval());
                                        assert(v.dv()->Obj_0[18].1 == x.historic_medians.jval());
                                    }
                                }
                            }
                            None
                        },
                    }
                } else {
                    proof {
                        assert forall|x: Token| v.dv() != #[trigger] x.jval() by {
                            if v.dv() == x.jval() {
                                assert(v.dv()->Obj_0.len() == 19);
                                assert(v.dv()->Obj_0[0].0 == "base_denom"@);
                                assert(v.dv()->Obj_0[1].0 == "reserve_factor"@);
                                assert(v.dv()->Obj_0[2].0 == "collateral_weight"@);
                                assert(v.dv()->Obj_0[3].0 == "liquidation_threshold"@);
                                assert(v.dv()->Obj_0[4].0 == "base_borrow_rate"@);
                                assert(v.dv()->Obj_0[5].0 == "kink_borrow_rate"@);
                                assert(v.dv()->Obj_0[6].0 == "max_borrow_rate"@);
                                assert(v.dv()->Obj_0[7].0 == "kink_utilization"@);
                                assert(v.dv()->Obj_0[8].0 == "liquidation_incentive"@);
                                assert(v.dv()->Obj_0[9].0 == "symbol_denom"@);
                                assert(v.dv()->Obj_0[10].0 == "exponent"@);
                                assert(v.dv()->Obj_0[11].0 == "enable_msg_supply"@);
                                assert(v.dv()->Obj_0[12].0 == "enable_msg_borrow"@);
                                assert(v.dv()->Obj_0[13].0 == "blacklist"@);
                                assert(v.dv()->Obj_0[14].0 == "max_collateral_share"@);
                                assert(v.dv()->Obj_0[15].0 == "max_supply_utilization"@);
                                assert(v.dv()->Obj_0[16].0 == "min_collateral_liquidity"@);
                                assert(v.dv()->Obj_0[17].0 == "max_supply"@);
                                assert(v.dv()->Obj_0[18].0 == "historic_medians"@);
                            }
                        }
                    }
                    None
                }
            },
            _ => None,
        }
    }
}
} // verus!
