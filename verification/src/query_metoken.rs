//! Queries of the metoken module group.
use vstd::prelude::*;

use crate::base::{Coin, Decimal};
use crate::record::WireRecord;
use crate::wire::{json_wf, str_eq, JsonEntry, JsonSpec, JsonVal};

verus! {

broadcast use vstd::string::group_string_axioms;

/// Asks for the metoken module group's parameters.
#[derive(Clone, Debug, PartialEq, Eq)]
pub struct MetokenParametersParams {
}
impl WireRecord for MetokenParametersParams {
    open spec fn jval(self) -> JsonSpec {
        JsonSpec::Obj(Seq::empty())
    }

    proof fn jval_wf(self) {
    }

    fn build_jval(&self) -> (r: JsonVal) {
        let r = JsonVal::Obj(Vec::new());
        proof {
            assert(r.dv()->Obj_0 =~~= self.jval()->Obj_0);
            assert(r.dv() =~~= self.jval());
        }
        r
    }

    fn from_jval(v: &JsonVal) -> (r: Option<MetokenParametersParams>) {
        match v {
            JsonVal::Obj(entries) => {
                if entries.len() == 0 {
                    let x = MetokenParametersParams {  };
                    proof {
                        assert(x.jval()->Obj_0 =~~= v.dv()->Obj_0);
                        assert(x.jval() =~~= v.dv());
                    }
                    Some(x)
                } else {
                    proof {
                        assert forall|x: MetokenParametersParams| v.dv() != #[trigger] x.jval() by {
                            assert(x.jval()->Obj_0.len() == 0);
                            assert(v.dv()->Obj_0.len() == entries@.len());
                        }
                    }
                    None
                }
            },
            _ => None,
        }
    }
}
/// Governance parameters of the metoken module group.
#[derive(Clone, Debug, PartialEq, Eq)]
pub struct MetokenParameters {
    pub rebalancing_frequency: i64,
    pub claiming_frequency: i64,
}
impl WireRecord for MetokenParameters {
    open spec fn jval(self) -> JsonSpec {
        JsonSpec::Obj(
            seq![
                ("rebalancing_frequency"@, self.rebalancing_frequency.jval()),
                ("claiming_frequency"@, self.claiming_frequency.jval()),
            ],
        )
    }

    proof fn jval_wf(self) {
        self.rebalancing_frequency.jval_wf();
        self.claiming_frequency.jval_wf();
        assert forall|k: int| 0 <= k < self.jval()->Obj_0.len() implies json_wf(
            #[trigger] self.jval()->Obj_0[k].1,
        ) by {
            if k == 0 {
                assert(json_wf(self.jval()->Obj_0[0].1));
            }
            if k == 1 {
                assert(json_wf(self.jval()->Obj_0[1].1));
            }
        }
    }

    fn build_jval(&self) -> (r: JsonVal) {
        let mut entries: Vec<JsonEntry> = Vec::new();
        entries.push(JsonEntry { key: String::from_str("rebalancing_frequency"), val: self.rebalancing_frequency.build_jval() });
        entries.push(JsonEntry { key: String::from_str("claiming_frequency"), val: self.claiming_frequency.build_jval() });
        let ghost ges = entries@;
        let r = JsonVal::Obj(entries);
        proof {
            let dvs = r.dv()->Obj_0;
            assert(dvs.len() == 2);
            assert(dvs[0] == (ges[0].key@, ges[0].val.dv()));
            assert(dvs[1] == (ges[1].key@, ges[1].val.dv()));
            assert(r.dv()->Obj_0 =~~= self.jval()->Obj_0);
            assert(r.dv() =~~= self.jval());
            assert(ges[0].val.wf());
            assert(ges[1].val.wf());
        }
        r
    }

    fn from_jval(v: &JsonVal) -> (r: Option<MetokenParameters>) {
        match v {
            JsonVal::Obj(entries) => {
                let shape = entries.len() == 2 && str_eq(entries[0].key.as_str(), "rebalancing_frequency") && str_eq(entries[1].key.as_str(), "claiming_frequency");
                proof {
                    let dvs = v.dv()->Obj_0;
                    assert(dvs.len() == entries@.len());
                    if entries@.len() == 2 {
                        assert(dvs[0] == (entries@[0].key@, entries@[0].val.dv()));
                        assert(dvs[1] == (entries@[1].key@, entries@[1].val.dv()));
                    }
                }
                if shape {
                    let g0: Option<i64> = WireRecord::from_jval(&entries[0].val);
                    let g1: Option<i64> = WireRecord::from_jval(&entries[1].val);
                    match (g0, g1) {
                        (Some(h0), Some(h1)) => {
                            let x = MetokenParameters { rebalancing_frequency: h0, claiming_frequency: h1 };
                            proof {
                                assert(x.jval()->Obj_0 =~~= v.dv()->Obj_0);
                                assert(x.jval() =~~= v.dv());
                            }
                            Some(x)
                        },
                        _ => {
                            proof {
                                assert forall|x: MetokenParameters| v.dv() != #[trigger] x.jval() by {
                                    if v.dv() == x.jval() {
                                        assert(v.dv()->Obj_0[0].1 == x.rebalancing_frequency.jval());
                                        assert(v.dv()->Obj_0[1].1 == x.claiming_frequency.jval());
                                    }
                                }
                            }
                            None
                        },
                    }
                } else {
                    proof {
                        assert forall|x: MetokenParameters| v.dv() != #[trigger] x.jval() by {
                            if v.dv() == x.jval() {
                                assert(v.dv()->Obj_0.len() == 2);
                                assert(v.dv()->Obj_0[0].0 == "rebalancing_frequency"@);
                                assert(v.dv()->Obj_0[1].0 == "claiming_frequency"@);
                            }
                        }
                    }
                    None
                }
            },
            _ => None,
        }
    }
}
/// The metoken module group's parameters.
#[derive(Clone, Debug, PartialEq, Eq)]
pub struct MetokenParametersResponse {
    pub params: MetokenParameters,
}
impl WireRecord for MetokenParametersResponse {
    open spec fn jval(self) -> JsonSpec {
        JsonSpec::Obj(
            seq![
                ("params"@, self.params.jval()),
            ],
        )
    }

    proof fn jval_wf(self) {
        self.params.jval_wf();
        assert forall|k: int| 0 <= k < self.jval()->Obj_0.len() implies json_wf(
            #[trigger] self.jval()->Obj_0[k].1,
        ) by {
            if k == 0 {
                assert(json_wf(self.jval()->Obj_0[0].1));
            }
        }
    }

    fn build_jval(&self) -> (r: JsonVal) {
        let mut entries: Vec<JsonEntry> = Vec::new();
        entries.push(JsonEntry { key: String::from_str("params"), val: self.params.build_jval() });
        let ghost ges = entries@;
        let r = JsonVal::Obj(entries);
        proof {
            let dvs = r.dv()->Obj_0;
            assert(dvs.len() == 1);
            assert(dvs[0] == (ges[0].key@, ges[0].val.dv()));
            assert(r.dv()->Obj_0 =~~= self.jval()->Obj_0);
            assert(r.dv() =~~= self.jval());
            assert(ges[0].val.wf());
        }
        r
    }

    fn from_jval(v: &JsonVal) -> (r: Option<MetokenParametersResponse>) {
        match v {
            JsonVal::Obj(entries) => {
                let shape = entries.len() == 1 && str_eq(entries[0].key.as_str(), "params");
                proof {
                    let dvs = v.dv()->Obj_0;
                    assert(dvs.len() == entries@.len());
                    if entries@.len() == 1 {
                        assert(dvs[0] == (entries@[0].key@, entries@[0].val.dv()));
                    }
                }
                if shape {
                    let g0: Option<MetokenParameters> = WireRecord::from_jval(&entries[0].val);
                    match (g0) {
                        (Some(h0)) => {
                            let x = MetokenParametersResponse { params: h0 };
                            proof {
                                assert(x.jval()->Obj_0 =~~= v.dv()->Obj_0);
                                assert(x.jval() =~~= v.dv());
                            }
                            Some(x)
                        },
                        _ => {
                            proof {
                                assert forall|x: MetokenParametersResponse| v.dv() != #[trigger] x.jval() by {
                                    if v.dv() == x.jval() {
                                        assert(v.dv()->Obj_0[0].1 == x.params.jval());
                                    }
                                }
                            }
                            None
                        },
                    }
                } else {
                    proof {
                        assert forall|x: MetokenParametersResponse| v.dv() != #[trigger] x.jval() by {
                            if v.dv() == x.jval() {
                                assert(v.dv()->Obj_0.len() == 1);
                                assert(v.dv()->Obj_0[0].0 == "params"@);
                            }
                        }
                    }
                    None
                }
            },
            _ => None,
        }
    }
}
/// Asks for the registered metoken indexes.
#[derive(Clone, Debug, PartialEq, Eq)]
pub struct MetokenIndexesParams {
    pub metoken_denom: String,
}
impl WireRecord for MetokenIndexesParams {
    open spec fn jval(self) -> JsonSpec {
        JsonSpec::Obj(
            seq![
                ("metoken_denom"@, self.metoken_denom.jval()),
            ],
        )
    }

    proof fn jval_wf(self) {
        self.metoken_denom.jval_wf();
        assert forall|k: int| 0 <= k < self.jval()->Obj_0.len() implies json_wf(
            #[trigger] self.jval()->Obj_0[k].1,
        ) by {
            if k == 0 {
                assert(json_wf(self.jval()->Obj_0[0].1));
            }
        }
    }

    fn build_jval(&self) -> (r: JsonVal) {
        let mut entries: Vec<JsonEntry> = Vec::new();
        entries.push(JsonEntry { key: String::from_str("metoken_denom"), val: self.metoken_denom.build_jval() });
        let ghost ges = entries@;
        let r = JsonVal::Obj(entries);
        proof {
            let dvs = r.dv()->Obj_0;
            assert(dvs.len() == 1);
            assert(dvs[0] == (ges[0].key@, ges[0].val.dv()));
            assert(r.dv()->Obj_0 =~~= self.jval()->Obj_0);
            assert(r.dv() =~~= self.jval());
            assert(ges[0].val.wf());
        }
        r
    }

    fn from_jval(v: &JsonVal) -> (r: Option<MetokenIndexesParams>) {
        match v {
            JsonVal::Obj(entries) => {
                let shape = entries.len() == 1 && str_eq(entries[0].key.as_str(), "metoken_denom");
                proof {
                    let dvs = v.dv()->Obj_0;
                    assert(dvs.len() == entries@.len());
                    if entries@.len() == 1 {
                        assert(dvs[0] == (entries@[0].key@, entries@[0].val.dv()));
                    }
                }
                if shape {
                    let g0: Option<String> = WireRecord::from_jval(&entries[0].val);
                    match (g0) {
                        (Some(h0)) => {
                            let x = MetokenIndexesParams { metoken_denom: h0 };
                            proof {
                                assert(x.jval()->Obj_0 =~~= v.dv()->Obj_0);
                                assert(x.jval() =~~= v.dv());
                            }
                            Some(x)
                        },
                        _ => {
                            proof {
                                assert forall|x: MetokenIndexesParams| v.dv() != #[trigger] x.jval() by {
                                    if v.dv() == x.jval() {
                                        assert(v.dv()->Obj_0[0].1 == x.metoken_denom.jval());
                                    }
                                }
                            }
                            None
                        },
                    }
                } else {
                    proof {
                        assert forall|x: MetokenIndexesParams| v.dv() != #[trigger] x.jval() by {
                            if v.dv() == x.jval() {
                                assert(v.dv()->Obj_0.len() == 1);
                                assert(v.dv()->Obj_0[0].0 == "metoken_denom"@);
                            }
                        }
                    }
                    None
                }
            },
            _ => None,
        }
    }
}
/// The fee curve of one metoken index.
#[derive(Clone, Debug, PartialEq, Eq)]
pub struct Fee {
    pub min_fee: Decimal,
    pub balanced_fee: Decimal,
    pub max_fee: Decimal,
}
impl WireRecord for Fee {
    open spec fn jval(self) -> JsonSpec {
        JsonSpec::Obj(
            seq![
                ("min_fee"@, self.min_fee.jval()),
                ("balanced_fee"@, self.balanced_fee.jval()),
                ("max_fee"@, self.max_fee.jval()),
            ],
        )
    }

    proof fn jval_wf(self) {
        self.min_fee.jval_wf();
        self.balanced_fee.jval_wf();
        self.max_fee.jval_wf();
        assert forall|k: int| 0 <= k < self.jval()->Obj_0.len() implies json_wf(
            #[trigger] self.jval()->Obj_0[k].1,
        ) by {
            if k == 0 {
                assert(json_wf(self.jval()->Obj_0[0].1));
            }
            if k == 1 {
                assert(json_wf(self.jval()->Obj_0[1].1));
            }
            if k == 2 {
                assert(json_wf(self.jval()->Obj_0[2].1));
            }
        }
    }

    fn build_jval(&self) -> (r: JsonVal) {
        let mut entries: Vec<JsonEntry> = Vec::new();
        entries.push(JsonEntry { key: String::from_str("min_fee"), val: self.min_fee.build_jval() });
        entries.push(JsonEntry { key: String::from_str("balanced_fee"), val: self.balanced_fee.build_jval() });
        entries.push(JsonEntry { key: String::from_str("max_fee"), val: self.max_fee.build_jval() });
        let ghost ges = entries@;
        let r = JsonVal::Obj(entries);
        proof {
            let dvs = r.dv()->Obj_0;
            assert(dvs.len() == 3);
            assert(dvs[0] == (ges[0].key@, ges[0].val.dv()));
            assert(dvs[1] == (ges[1].key@, ges[1].val.dv()));
            assert(dvs[2] == (ges[2].key@, ges[2].val.dv()));
            assert(r.dv()->Obj_0 =~~= self.jval()->Obj_0);
            assert(r.dv() =~~= self.jval());
            assert(ges[0].val.wf());
            assert(ges[1].val.wf());
            assert(ges[2].val.wf());
        }
        r
    }

    fn from_jval(v: &JsonVal) -> (r: Option<Fee>) {
        match v {
            JsonVal::Obj(entries) => {
                let shape = entries.len() == 3 && str_eq(entries[0].key.as_str(), "min_fee") && str_eq(entries[1].key.as_str(), "balanced_fee") && str_eq(entries[2].key.as_str(), "max_fee");
                proof {
                    let dvs = v.dv()->Obj_0;
                    assert(dvs.len() == entries@.len());
                    if entries@.len() == 3 {
                        assert(dvs[0] == (entries@[0].key@, entries@[0].val.dv()));
                        assert(dvs[1] == (entries@[1].key@, entries@[1].val.dv()));
                        assert(dvs[2] == (entries@[2].key@, entries@[2].val.dv()));
                    }
                }
                if shape {
                    let g0: Option<Decimal> = WireRecord::from_jval(&entries[0].val);
                    let g1: Option<Decimal> = WireRecord::from_jval(&entries[1].val);
                    let g2: Option<Decimal> = WireRecord::from_jval(&entries[2].val);
                    match (g0, g1, g2) {
                        (Some(h0), Some(h1), Some(h2)) => {
                            let x = Fee { min_fee: h0, balanced_fee: h1, max_fee: h2 };
                            proof {
                                assert(x.jval()->Obj_0 =~~= v.dv()->Obj_0);
                                assert(x.jval() =~~= v.dv());
                            }
                            Some(x)
                        },
                        _ => {
                            proof {
                                assert forall|x: Fee| v.dv() != #[trigger] x.jval() by {
                                    if v.dv() == x.jval() {
                                        assert(v.dv()->Obj_0[0].1 == x.min_fee.jval());
                                        assert(v.dv()->Obj_0[1].1 == x.balanced_fee.jval());
                                        assert(v.dv()->Obj_0[2].1 == x.max_fee.jval());
                                    }
                                }
                            }
                            None
                        },
                    }
                } else {
                    proof {
                        assert forall|x: Fee| v.dv() != #[trigger] x.jval() by {
                            if v.dv() == x.jval() {
                                assert(v.dv()->Obj_0.len() == 3);
                                assert(v.dv()->Obj_0[0].0 == "min_fee"@);
                                assert(v.dv()->Obj_0[1].0 == "balanced_fee"@);
                                assert(v.dv()->Obj_0[2].0 == "max_fee"@);
                            }
                        }
                    }
                    None
                }
            },
            _ => None,
        }
    }
}
/// One asset accepted into a metoken index.
#[derive(Clone, Debug, PartialEq, Eq)]
pub struct AcceptedAsset {
    pub denom: String,
    pub reserve_portion: Decimal,
    pub target_allocation: Decimal,
}
impl WireRecord for AcceptedAsset {
    open spec fn jval(self) -> JsonSpec {
        JsonSpec::Obj(
            seq![
                ("denom"@, self.denom.jval()),
                ("reserve_portion"@, self.reserve_portion.jval()),
                ("target_allocation"@, self.target_allocation.jval()),
            ],
        )
    }

    proof fn jval_wf(self) {
        self.denom.jval_wf();
        self.reserve_portion.jval_wf();
        self.target_allocation.jval_wf();
        assert forall|k: int| 0 <= k < self.jval()->Obj_0.len() implies json_wf(
            #[trigger] self.jval()->Obj_0[k].1,
        ) by {
            if k == 0 {
                assert(json_wf(self.jval()->Obj_0[0].1));
            }
            if k == 1 {
                assert(json_wf(self.jval()->Obj_0[1].1));
            }
            if k == 2 {
                assert(json_wf(self.jval()->Obj_0[2].1));
            }
        }
    }

    fn build_jval(&self) -> (r: JsonVal) {
        let mut entries: Vec<JsonEntry> = Vec::new();
        entries.push(JsonEntry { key: String::from_str("denom"), val: self.denom.build_jval() });
        entries.push(JsonEntry { key: String::from_str("reserve_portion"), val: self.reserve_portion.build_jval() });
        entries.push(JsonEntry { key: String::from_str("target_allocation"), val: self.target_allocation.build_jval() });
        let ghost ges = entries@;
        let r = JsonVal::Obj(entries);
        proof {
            let dvs = r.dv()->Obj_0;
            assert(dvs.len() == 3);
            assert(dvs[0] == (ges[0].key@, ges[0].val.dv()));
            assert(dvs[1] == (ges[1].key@, ges[1].val.dv()));
            assert(dvs[2] == (ges[2].key@, ges[2].val.dv()));
            assert(r.dv()->Obj_0 =~~= self.jval()->Obj_0);
            assert(r.dv() =~~= self.jval());
            assert(ges[0].val.wf());
            assert(ges[1].val.wf());
            assert(ges[2].val.wf());
        }
        r
    }

    fn from_jval(v: &JsonVal) -> (r: Option<AcceptedAsset>) {
        match v {
            JsonVal::Obj(entries) => {
                let shape = entries.len() == 3 && str_eq(entries[0].key.as_str(), "denom") && str_eq(entries[1].key.as_str(), "reserve_portion") && str_eq(entries[2].key.as_str(), "target_allocation");
                proof {
                    let dvs = v.dv()->Obj_0;
                    assert(dvs.len() == entries@.len());
                    if entries@.len() == 3 {
                        assert(dvs[0] == (entries@[0].key@, entries@[0].val.dv()));
                        assert(dvs[1] == (entries@[1].key@, entries@[1].val.dv()));
                        assert(dvs[2] == (entries@[2].key@, entries@[2].val.dv()));
                    }
                }
                if shape {
                    let g0: Option<String> = WireRecord::from_jval(&entries[0].val);
                    let g1: Option<Decimal> = WireRecord::from_jval(&entries[1].val);
                    let g2: Option<Decimal> = WireRecord::from_jval(&entries[2].val);
                    match (g0, g1, g2) {
                        (Some(h0), Some(h1), Some(h2)) => {
                            let x = AcceptedAsset { denom: h0, reserve_portion: h1, target_allocation: h2 };
                            proof {
                                assert(x.jval()->Obj_0 =~~= v.dv()->Obj_0);
                                assert(x.jval() =~~= v.dv());
                            }
                            Some(x)
                        },
                        _ => {
                            proof {
                                assert forall|x: AcceptedAsset| v.dv() != #[trigger] x.jval() by {
                                    if v.dv() == x.jval() {
                                        assert(v.dv()->Obj_0[0].1 == x.denom.jval());
                                        assert(v.dv()->Obj_0[1].1 == x.reserve_portion.jval());
                                        assert(v.dv()->Obj_0[2].1 == x.target_allocation.jval());
                                    }
                                }
                            }
                            None
                        },
                    }
                } else {
                    proof {
                        assert forall|x: AcceptedAsset| v.dv() != #[trigger] x.jval() by {
                            if v.dv() == x.jval() {
                                assert(v.dv()->Obj_0.len() == 3);
                                assert(v.dv()->Obj_0[0].0 == "denom"@);
                                assert(v.dv()->Obj_0[1].0 == "reserve_portion"@);
                                assert(v.dv()->Obj_0[2].0 == "target_allocation"@);
                            }
                        }
                    }
                    None
                }
            },
            _ => None,
        }
    }
}
/// One metoken index and its accepted assets.
#[derive(Clone, Debug, PartialEq, Eq)]
pub struct Index {
    pub denom: String,
    pub max_supply: i64,
    pub exponent: u32,
    pub fee: Fee,
    pub accepted_assets: Vec<AcceptedAsset>,
}
impl WireRecord for Index {
    open spec fn jval(self) -> JsonSpec {
        JsonSpec::Obj(
            seq![
                ("denom"@, self.denom.jval()),
                ("max_supply"@, self.max_supply.jval()),
                ("exponent"@, self.exponent.jval()),
                ("fee"@, self.fee.jval()),
                ("accepted_assets"@, self.accepted_assets.jval()),
            ],
        )
    }

    proof fn jval_wf(self) {
        self.denom.jval_wf();
        self.max_supply.jval_wf();
        self.exponent.jval_wf();
        self.fee.jval_wf();
        self.accepted_assets.jval_wf();
        assert forall|k: int| 0 <= k < self.jval()->Obj_0.len() implies json_wf(
            #[trigger] self.jval()->Obj_0[k].1,
        ) by {
            if k == 0 {
                assert(json_wf(self.jval()->Obj_0[0].1));
            }
            if k == 1 {
                assert(json_wf(self.jval()->Obj_0[1].1));
            }
            if k == 2 {
                assert(json_wf(self.jval()->Obj_0[2].1));
            }
            if k == 3 {
                assert(json_wf(self.jval()->Obj_0[3].1));
            }
            if k == 4 {
                assert(json_wf(self.jval()->Obj_0[4].1));
            }
        }
    }

    fn build_jval(&self) -> (r: JsonVal) {
        let mut entries: Vec<JsonEntry> = Vec::new();
        entries.push(JsonEntry { key: String::from_str("denom"), val: self.denom.build_jval() });
        entries.push(JsonEntry { key: String::from_str("max_supply"), val: self.max_supply.build_jval() });
        entries.push(JsonEntry { key: String::from_str("exponent"), val: self.exponent.build_jval() });
        entries.push(JsonEntry { key: String::from_str("fee"), val: self.fee.build_jval() });
        entries.push(JsonEntry { key: String::from_str("accepted_assets"), val: self.accepted_assets.build_jval() });
        let ghost ges = entries@;
        let r = JsonVal::Obj(entries);
        proof {
            let dvs = r.dv()->Obj_0;
            assert(dvs.len() == 5);
            assert(dvs[0] == (ges[0].key@, ges[0].val.dv()));
            assert(dvs[1] == (ges[1].key@, ges[1].val.dv()));
            assert(dvs[2] == (ges[2].key@, ges[2].val.dv()));
            assert(dvs[3] == (ges[3].key@, ges[3].val.dv()));
            assert(dvs[4] == (ges[4].key@, ges[4].val.dv()));
            assert(r.dv()->Obj_0 =~~= self.jval()->Obj_0);
            assert(r.dv() =~~= self.jval());
            assert(ges[0].val.wf());
            assert(ges[1].val.wf());
            assert(ges[2].val.wf());
            assert(ges[3].val.wf());
            assert(ges[4].val.wf());
        }
        r
    }

    fn from_jval(v: &JsonVal) -> (r: Option<Index>) {
        match v {
            JsonVal::Obj(entries) => {
                let shape = entries.len() == 5 && str_eq(entries[0].key.as_str(), "denom") && str_eq(entries[1].key.as_str(), "max_supply") && str_eq(entries[2].key.as_str(), "exponent") && str_eq(entries[3].key.as_str(), "fee") && str_eq(entries[4].key.as_str(), "accepted_assets");
                proof {
                    let dvs = v.dv()->Obj_0;
                    assert(dvs.len() == entries@.len());
                    if entries@.len() == 5 {
                        assert(dvs[0] == (entries@[0].key@, entries@[0].val.dv()));
                        assert(dvs[1] == (entries@[1].key@, entries@[1].val.dv()));
                        assert(dvs[2] == (entries@[2].key@, entries@[2].val.dv()));
                        assert(dvs[3] == (entries@[3].key@, entries@[3].val.dv()));
                        assert(dvs[4] == (entries@[4].key@, entries@[4].val.dv()));
                    }
                }
                if shape {
                    let g0: Option<String> = WireRecord::from_jval(&entries[0].val);
                    let g1: Option<i64> = WireRecord::from_jval(&entries[1].val);
                    let g2: Option<u32> = WireRecord::from_jval(&entries[2].val);
                    let g3: Option<Fee> = WireRecord::from_jval(&entries[3].val);
                    let g4: Option<Vec<AcceptedAsset>> = WireRecord::from_jval(&entries[4].val);
                    match (g0, g1, g2, g3, g4) {
                        (Some(h0), Some(h1), Some(h2), Some(h3), Some(h4)) => {
                            let x = Index { denom: h0, max_supply: h1, exponent: h2, fee: h3, accepted_assets: h4 };
                            proof {
                                assert(x.jval()->Obj_0 =~~= v.dv()->Obj_0);
                                assert(x.jval() =~~= v.dv());
                            }
                            Some(x)
                        },
                        _ => {
                            proof {
                                assert forall|x: Index| v.dv() != #[trigger] x.jval() by {
                                    if v.dv() == x.jval() {
                                        assert(v.dv()->Obj_0[0].1 == x.denom.jval());
                                        assert(v.dv()->Obj_0[1].1 == x.max_supply.jval());
                                        assert(v.dv()->Obj_0[2].1 == x.exponent.jval());
                                        assert(v.dv()->Obj_0[3].1 == x.fee.jval());
                                        assert(v.dv()->Obj_0[4].1 == x.accepted_assets.jval());
                                    }
                                }
                            }
                            None
                        },
                    }
                } else {
                    proof {
                        assert forall|x: Index| v.dv() != #[trigger] x.jval() by {
                            if v.dv() == x.jval() {
                                assert(v.dv()->Obj_0.len() == 5);
                                assert(v.dv()->Obj_0[0].0 == "denom"@);
                                assert(v.dv()->Obj_0[1].0 == "max_supply"@);
                                assert(v.dv()->Obj_0[2].0 == "exponent"@);
                                assert(v.dv()->Obj_0[3].0 == "fee"@);
                                assert(v.dv()->Obj_0[4].0 == "accepted_assets"@);
                            }
                        }
                    }
                    None
                }
            },
            _ => None,
        }
    }
}
/// The registered metoken indexes.
#[derive(Clone, Debug, PartialEq, Eq)]
pub struct MetokenIndexesResponse {
    pub registry: Vec<Index>,
}
impl WireRecord for MetokenIndexesResponse {
    open spec fn jval(self) -> JsonSpec {
        JsonSpec::Obj(
            seq![
                ("registry"@, self.registry.jval()),
            ],
        )
    }

    proof fn jval_wf(self) {
        self.registry.jval_wf();
        assert forall|k: int| 0 <= k < self.jval()->Obj_0.len() implies json_wf(
            #[trigger] self.jval()->Obj_0[k].1,
        ) by {
            if k == 0 {
                assert(json_wf(self.jval()->Obj_0[0].1));
            }
        }
    }

    fn build_jval(&self) -> (r: JsonVal) {
        let mut entries: Vec<JsonEntry> = Vec::new();
        entries.push(JsonEntry { key: String::from_str("registry"), val: self.registry.build_jval() });
        let ghost ges = entries@;
        let r = JsonVal::Obj(entries);
        proof {
            let dvs = r.dv()->Obj_0;
            assert(dvs.len() == 1);
            assert(dvs[0] == (ges[0].key@, ges[0].val.dv()));
            assert(r.dv()->Obj_0 =~~= self.jval()->Obj_0);
            assert(r.dv() =~~= self.jval());
            assert(ges[0].val.wf());
        }
        r
    }

    fn from_jval(v: &JsonVal) -> (r: Option<MetokenIndexesResponse>) {
        match v {
            JsonVal::Obj(entries) => {
                let shape = entries.len() == 1 && str_eq(entries[0].key.as_str(), "registry");
                proof {
                    let dvs = v.dv()->Obj_0;
                    assert(dvs.len() == entries@.len());
                    if entries@.len() == 1 {
                        assert(dvs[0] == (entries@[0].key@, entries@[0].val.dv()));
                    }
                }
                if shape {
                    let g0: Option<Vec<Index>> = WireRecord::from_jval(&entries[0].val);
                    match (g0) {
                        (Some(h0)) => {
                            let x = MetokenIndexesResponse { registry: h0 };
                            proof {
                                assert(x.jval()->Obj_0 =~~= v.dv()->Obj_0);
                                assert(x.jval() =~~= v.dv());
                            }
                            Some(x)
                        },
                        _ => {
                            proof {
                                assert forall|x: MetokenIndexesResponse| v.dv() != #[trigger] x.jval() by {
                                    if v.dv() == x.jval() {
                                        assert(v.dv()->Obj_0[0].1 == x.registry.jval());
                                    }
                                }
                            }
                            None
                        },
                    }
                } else {
                    proof {
                        assert forall|x: MetokenIndexesResponse| v.dv() != #[trigger] x.jval() by {
                            if v.dv() == x.jval() {
                                assert(v.dv()->Obj_0.len() == 1);
                                assert(v.dv()->Obj_0[0].0 == "registry"@);
                            }
                        }
                    }
                    None
                }
            },
            _ => None,
        }
    }
}
/// Asks for the fee of swapping an asset into a metoken.
#[derive(Clone, Debug, PartialEq, Eq)]
pub struct MetokenSwapfeeParams {
    pub metoken_denom: String,
    pub asset: String,
}
impl WireRecord for MetokenSwapfeeParams {
    open spec fn jval(self) -> JsonSpec {
        JsonSpec::Obj(
            seq![
                ("metoken_denom"@, self.metoken_denom.jval()),
                ("asset"@, self.asset.jval()),
            ],
        )
    }

    proof fn jval_wf(self) {
        self.metoken_denom.jval_wf();
        self.asset.jval_wf();
        assert forall|k: int| 0 <= k < self.jval()->Obj_0.len() implies json_wf(
            #[trigger] self.jval()->Obj_0[k].1,
        ) by {
            if k == 0 {
                assert(json_wf(self.jval()->Obj_0[0].1));
            }
            if k == 1 {
                assert(json_wf(self.jval()->Obj_0[1].1));
            }
        }
    }

    fn build_jval(&self) -> (r: JsonVal) {
        let mut entries: Vec<JsonEntry> = Vec::new();
        entries.push(JsonEntry { key: String::from_str("metoken_denom"), val: self.metoken_denom.build_jval() });
        entries.push(JsonEntry { key: String::from_str("asset"), val: self.asset.build_jval() });
        let ghost ges = entries@;
        let r = JsonVal::Obj(entries);
        proof {
            let dvs = r.dv()->Obj_0;
            assert(dvs.len() == 2);
            assert(dvs[0] == (ges[0].key@, ges[0].val.dv()));
            assert(dvs[1] == (ges[1].key@, ges[1].val.dv()));
            assert(r.dv()->Obj_0 =~~= self.jval()->Obj_0);
            assert(r.dv() =~~= self.jval());
            assert(ges[0].val.wf());
            assert(ges[1].val.wf());
        }
        r
    }

    fn from_jval(v: &JsonVal) -> (r: Option<MetokenSwapfeeParams>) {
        match v {
            JsonVal::Obj(entries) => {
                let shape = entries.len() == 2 && str_eq(entries[0].key.as_str(), "metoken_denom") && str_eq(entries[1].key.as_str(), "asset");
                proof {
                    let dvs = v.dv()->Obj_0;
                    assert(dvs.len() == entries@.len());
                    if entries@.len() == 2 {
                        assert(dvs[0] == (entries@[0].key@, entries@[0].val.dv()));
                        assert(dvs[1] == (entries@[1].key@, entries@[1].val.dv()));
                    }
                }
                if shape {
                    let g0: Option<String> = WireRecord::from_jval(&entries[0].val);
                    let g1: Option<String> = WireRecord::from_jval(&entries[1].val);
                    match (g0, g1) {
                        (Some(h0), Some(h1)) => {
                            let x = MetokenSwapfeeParams { metoken_denom: h0, asset: h1 };
                            proof {
                                assert(x.jval()->Obj_0 =~~= v.dv()->Obj_0);
                                assert(x.jval() =~~= v.dv());
                            }
                            Some(x)
                        },
                        _ => {
                            proof {
                                assert forall|x: MetokenSwapfeeParams| v.dv() != #[trigger] x.jval() by {
                                    if v.dv() == x.jval() {
                                        assert(v.dv()->Obj_0[0].1 == x.metoken_denom.jval());
                                        assert(v.dv()->Obj_0[1].1 == x.asset.jval());
                                    }
                                }
                            }
                            None
                        },
                    }
                } else {
                    proof {
                        assert forall|x: MetokenSwapfeeParams| v.dv() != #[trigger] x.jval() by {
                            if v.dv() == x.jval() {
                                assert(v.dv()->Obj_0.len() == 2);
                                assert(v.dv()->Obj_0[0].0 == "metoken_denom"@);
                                assert(v.dv()->Obj_0[1].0 == "asset"@);
                            }
                        }
                    }
                    None
                }
            },
            _ => None,
        }
    }
}
/// The fee of the requested swap.
#[derive(Clone, Debug, PartialEq, Eq)]
pub struct MetokenSwapfeeResponse {
    pub asset: Coin,
}
impl WireRecord for MetokenSwapfeeResponse {
    open spec fn jval(self) -> JsonSpec {
        JsonSpec::Obj(
            seq![
                ("asset"@, self.asset.jval()),
            ],
        )
    }

    proof fn jval_wf(self) {
        self.asset.jval_wf();
        assert forall|k: int| 0 <= k < self.jval()->Obj_0.len() implies json_wf(
            #[trigger] self.jval()->Obj_0[k].1,
        ) by {
            if k == 0 {
                assert(json_wf(self.jval()->Obj_0[0].1));
            }
        }
    }

    fn build_jval(&self) -> (r: JsonVal) {
        let mut entries: Vec<JsonEntry> = Vec::new();
        entries.push(JsonEntry { key: String::from_str("asset"), val: self.asset.build_jval() });
        let ghost ges = entries@;
        let r = JsonVal::Obj(entries);
        proof {
            let dvs = r.dv()->Obj_0;
            assert(dvs.len() == 1);
            assert(dvs[0] == (ges[0].key@, ges[0].val.dv()));
            assert(r.dv()->Obj_0 =~~= self.jval()->Obj_0);
            assert(r.dv() =~~= self.jval());
            assert(ges[0].val.wf());
        }
        r
    }

    fn from_jval(v: &JsonVal) -> (r: Option<MetokenSwapfeeResponse>) {
        match v {
            JsonVal::Obj(entries) => {
                let shape = entries.len() == 1 && str_eq(entries[0].key.as_str(), "asset");
                proof {
                    let dvs = v.dv()->Obj_0;
                    assert(dvs.len() == entries@.len());
                    if entries@.len() == 1 {
                        assert(dvs[0] == (entries@[0].key@, entries@[0].val.dv()));
                    }
                }
                if shape {
                    let g0: Option<Coin> = WireRecord::from_jval(&entries[0].val);
                    match (g0) {
                        (Some(h0)) => {
                            let x = MetokenSwapfeeResponse { asset: h0 };
                            proof {
                                assert(x.jval()->Obj_0 =~~= v.dv()->Obj_0);
                                assert(x.jval() =~~= v.dv());
                            }
                            Some(x)
                        },
                        _ => {
                            proof {
                                assert forall|x: MetokenSwapfeeResponse| v.dv() != #[trigger] x.jval() by {
                                    if v.dv() == x.jval() {
                                        assert(v.dv()->Obj_0[0].1 == x.asset.jval());
                                    }
                                }
                            }
                            None
                        },
                    }
                } else {
                    proof {
                        assert forall|x: MetokenSwapfeeResponse| v.dv() != #[trigger] x.jval() by {
                            if v.dv() == x.jval() {
                                assert(v.dv()->Obj_0.len() == 1);
                                assert(v.dv()->Obj_0[0].0 == "asset"@);
                            }
                        }
                    }
                    None
                }
            },
            _ => None,
        }
    }
}
/// Asks for the fee of redeeming a metoken into an asset.
#[derive(Clone, Debug, PartialEq, Eq)]
pub struct MetokenRedeemfeeParams {
    pub metoken: String,
    pub asset_denom: String,
}
impl WireRecord for MetokenRedeemfeeParams {
    open spec fn jval(self) -> JsonSpec {
        JsonSpec::Obj(
            seq![
                ("metoken"@, self.metoken.jval()),
                ("asset_denom"@, self.asset_denom.jval()),
            ],
        )
    }

    proof fn jval_wf(self) {
        self.metoken.jval_wf();
        self.asset_denom.jval_wf();
        assert forall|k: int| 0 <= k < self.jval()->Obj_0.len() implies json_wf(
            #[trigger] self.jval()->Obj_0[k].1,
        ) by {
            if k == 0 {
                assert(json_wf(self.jval()->Obj_0[0].1));
            }
            if k == 1 {
                assert(json_wf(self.jval()->Obj_0[1].1));
            }
        }
    }

    fn build_jval(&self) -> (r: JsonVal) {
        let mut entries: Vec<JsonEntry> = Vec::new();
        entries.push(JsonEntry { key: String::from_str("metoken"), val: self.metoken.build_jval() });
        entries.push(JsonEntry { key: String::from_str("asset_denom"), val: self.asset_denom.build_jval() });
        let ghost ges = entries@;
        let r = JsonVal::Obj(entries);
        proof {
            let dvs = r.dv()->Obj_0;
            assert(dvs.len() == 2);
            assert(dvs[0] == (ges[0].key@, ges[0].val.dv()));
            assert(dvs[1] == (ges[1].key@, ges[1].val.dv()));
            assert(r.dv()->Obj_0 =~~= self.jval()->Obj_0);
            assert(r.dv() =~~= self.jval());
            assert(ges[0].val.wf());
            assert(ges[1].val.wf());
        }
        r
    }

    fn from_jval(v: &JsonVal) -> (r: Option<MetokenRedeemfeeParams>) {
        match v {
            JsonVal::Obj(entries) => {
                let shape = entries.len() == 2 && str_eq(entries[0].key.as_str(), "metoken") && str_eq(entries[1].key.as_str(), "asset_denom");
                proof {
                    let dvs = v.dv()->Obj_0;
                    assert(dvs.len() == entries@.len());
                    if entries@.len() == 2 {
                        assert(dvs[0] == (entries@[0].key@, entries@[0].val.dv()));
                        assert(dvs[1] == (entries@[1].key@, entries@[1].val.dv()));
                    }
                }
                if shape {
                    let g0: Option<String> = WireRecord::from_jval(&entries[0].val);
                    let g1: Option<String> = WireRecord::from_jval(&entries[1].val);
                    match (g0, g1) {
                        (Some(h0), Some(h1)) => {
                            let x = MetokenRedeemfeeParams { metoken: h0, asset_denom: h1 };
                            proof {
                                assert(x.jval()->Obj_0 =~~= v.dv()->Obj_0);
                                assert(x.jval() =~~= v.dv());
                            }
                            Some(x)
                        },
                        _ => {
                            proof {
                                assert forall|x: MetokenRedeemfeeParams| v.dv() != #[trigger] x.jval() by {
                                    if v.dv() == x.jval() {
                                        assert(v.dv()->Obj_0[0].1 == x.metoken.jval());
                                        assert(v.dv()->Obj_0[1].1 == x.asset_denom.jval());
                                    }
                                }
                            }
                            None
                        },
                    }
                } else {
                    proof {
                        assert forall|x: MetokenRedeemfeeParams| v.dv() != #[trigger] x.jval() by {
                            if v.dv() == x.jval() {
                                assert(v.dv()->Obj_0.len() == 2);
                                assert(v.dv()->Obj_0[0].0 == "metoken"@);
                                assert(v.dv()->Obj_0[1].0 == "asset_denom"@);
                            }
                        }
                    }
                    None
                }
            },
            _ => None,
        }
    }
}
/// The fee of the requested redemption.
#[derive(Clone, Debug, PartialEq, Eq)]
pub struct MetokenRedeemfeeResponse {
    pub asset: Coin,
}
impl WireRecord for MetokenRedeemfeeResponse {
    open spec fn jval(self) -> JsonSpec {
        JsonSpec::Obj(
            seq![
                ("asset"@, self.asset.jval()),
            ],
        )
    }

    proof fn jval_wf(self) {
        self.asset.jval_wf();
        assert forall|k: int| 0 <= k < self.jval()->Obj_0.len() implies json_wf(
            #[trigger] self.jval()->Obj_0[k].1,
        ) by {
            if k == 0 {
                assert(json_wf(self.jval()->Obj_0[0].1));
            }
        }
    }

    fn build_jval(&self) -> (r: JsonVal) {
        let mut entries: Vec<JsonEntry> = Vec::new();
        entries.push(JsonEntry { key: String::from_str("asset"), val: self.asset.build_jval() });
        let ghost ges = entries@;
        let r = JsonVal::Obj(entries);
        proof {
            let dvs = r.dv()->Obj_0;
            assert(dvs.len() == 1);
            assert(dvs[0] == (ges[0].key@, ges[0].val.dv()));
            assert(r.dv()->Obj_0 =~~= self.jval()->Obj_0);
            assert(r.dv() =~~= self.jval());
            assert(ges[0].val.wf());
        }
        r
    }

    fn from_jval(v: &JsonVal) -> (r: Option<MetokenRedeemfeeResponse>) {
        match v {
            JsonVal::Obj(entries) => {
                let shape = entries.len() == 1 && str_eq(entries[0].key.as_str(), "asset");
                proof {
                    let dvs = v.dv()->Obj_0;
                    assert(dvs.len() == entries@.len());
                    if entries@.len() == 1 {
                        assert(dvs[0] == (entries@[0].key@, entries@[0].val.dv()));
                    }
                }
                if shape {
                    let g0: Option<Coin> = WireRecord::from_jval(&entries[0].val);
                    match (g0) {
                        (Some(h0)) => {
                            let x = MetokenRedeemfeeResponse { asset: h0 };
                            proof {
                                assert(x.jval()->Obj_0 =~~= v.dv()->Obj_0);
                                assert(x.jval() =~~= v.dv());
                            }
                            Some(x)
                        },
                        _ => {
                            proof {
                                assert forall|x: MetokenRedeemfeeResponse| v.dv() != #[trigger] x.jval() by {
                                    if v.dv() == x.jval() {
                                        assert(v.dv()->Obj_0[0].1 == x.asset.jval());
                                    }
                                }
                            }
                            None
                        },
                    }
                } else {
                    proof {
                        assert forall|x: MetokenRedeemfeeResponse| v.dv() != #[trigger] x.jval() by {
                            if v.dv() == x.jval() {
                                assert(v.dv()->Obj_0.len() == 1);
                                assert(v.dv()->Obj_0[0].0 == "asset"@);
                            }
                        }
                    }
                    None
                }
            },
            _ => None,
        }
    }
}
/// Asks for the balances of a metoken index.
#[derive(Clone, Debug, PartialEq, Eq)]
pub struct MetokenIndexbalancesParams {
    pub metoken_denom: String,
}
impl WireRecord for MetokenIndexbalancesParams {
    open spec fn jval(self) -> JsonSpec {
        JsonSpec::Obj(
            seq![
                ("metoken_denom"@, self.metoken_denom.jval()),
            ],
        )
    }

    proof fn jval_wf(self) {
        self.metoken_denom.jval_wf();
        assert forall|k: int| 0 <= k < self.jval()->Obj_0.len() implies json_wf(
            #[trigger] self.jval()->Obj_0[k].1,
        ) by {
            if k == 0 {
                assert(json_wf(self.jval()->Obj_0[0].1));
            }
        }
    }

    fn build_jval(&self) -> (r: JsonVal) {
        let mut entries: Vec<JsonEntry> = Vec::new();
        entries.push(JsonEntry { key: String::from_str("metoken_denom"), val: self.metoken_denom.build_jval() });
        let ghost ges = entries@;
        let r = JsonVal::Obj(entries);
        proof {
            let dvs = r.dv()->Obj_0;
            assert(dvs.len() == 1);
            assert(dvs[0] == (ges[0].key@, ges[0].val.dv()));
            assert(r.dv()->Obj_0 =~~= self.jval()->Obj_0);
            assert(r.dv() =~~= self.jval());
            assert(ges[0].val.wf());
        }
        r
    }

    fn from_jval(v: &JsonVal) -> (r: Option<MetokenIndexbalancesParams>) {
        match v {
            JsonVal::Obj(entries) => {
                let shape = entries.len() == 1 && str_eq(entries[0].key.as_str(), "metoken_denom");
                proof {
                    let dvs = v.dv()->Obj_0;
                    assert(dvs.len() == entries@.len());
                    if entries@.len() == 1 {
                        assert(dvs[0] == (entries@[0].key@, entries@[0].val.dv()));
                    }
                }
                if shape {
                    let g0: Option<String> = WireRecord::from_jval(&entries[0].val);
                    match (g0) {
                        (Some(h0)) => {
                            let x = MetokenIndexbalancesParams { metoken_denom: h0 };
                            proof {
                                assert(x.jval()->Obj_0 =~~= v.dv()->Obj_0);
                                assert(x.jval() =~~= v.dv());
                            }
                            Some(x)
                        },
                        _ => {
                            proof {
                                assert forall|x: MetokenIndexbalancesParams| v.dv() != #[trigger] x.jval() by {
                                    if v.dv() == x.jval() {
                                        assert(v.dv()->Obj_0[0].1 == x.metoken_denom.jval());
                                    }
                                }
                            }
                            None
                        },
                    }
                } else {
                    proof {
                        assert forall|x: MetokenIndexbalancesParams| v.dv() != #[trigger] x.jval() by {
                            if v.dv() == x.jval() {
                                assert(v.dv()->Obj_0.len() == 1);
                                assert(v.dv()->Obj_0[0].0 == "metoken_denom"@);
                            }
                        }
                    }
                    None
                }
            },
            _ => None,
        }
    }
}
/// One asset's balances inside a metoken index.
#[derive(Clone, Debug, PartialEq, Eq)]
pub struct AssetBalance {
    pub denom: String,
    pub leveraged: Decimal,
    pub reserved: Decimal,
    pub fees: Decimal,
    pub interest: Decimal,
}
impl WireRecord for AssetBalance {
    open spec fn jval(self) -> JsonSpec {
        JsonSpec::Obj(
            seq![
                ("denom"@, self.denom.jval()),
                ("leveraged"@, self.leveraged.jval()),
                ("reserved"@, self.reserved.jval()),
                ("fees"@, self.fees.jval()),
                ("interest"@, self.interest.jval()),
            ],
        )
    }

    proof fn jval_wf(self) {
        self.denom.jval_wf();
        self.leveraged.jval_wf();
        self.reserved.jval_wf();
        self.fees.jval_wf();
        self.interest.jval_wf();
        assert forall|k: int| 0 <= k < self.jval()->Obj_0.len() implies json_wf(
            #[trigger] self.jval()->Obj_0[k].1,
        ) by {
            if k == 0 {
                assert(json_wf(self.jval()->Obj_0[0].1));
            }
            if k == 1 {
                assert(json_wf(self.jval()->Obj_0[1].1));
            }
            if k == 2 {
                assert(json_wf(self.jval()->Obj_0[2].1));
            }
            if k == 3 {
                assert(json_wf(self.jval()->Obj_0[3].1));
            }
            if k == 4 {
                assert(json_wf(self.jval()->Obj_0[4].1));
            }
        }
    }

    fn build_jval(&self) -> (r: JsonVal) {
        let mut entries: Vec<JsonEntry> = Vec::new();
        entries.push(JsonEntry { key: String::from_str("denom"), val: self.denom.build_jval() });
        entries.push(JsonEntry { key: String::from_str("leveraged"), val: self.leveraged.build_jval() });
        entries.push(JsonEntry { key: String::from_str("reserved"), val: self.reserved.build_jval() });
        entries.push(JsonEntry { key: String::from_str("fees"), val: self.fees.build_jval() });
        entries.push(JsonEntry { key: String::from_str("interest"), val: self.interest.build_jval() });
        let ghost ges = entries@;
        let r = JsonVal::Obj(entries);
        proof {
            let dvs = r.dv()->Obj_0;
            assert(dvs.len() == 5);
            assert(dvs[0] == (ges[0].key@, ges[0].val.dv()));
            assert(dvs[1] == (ges[1].key@, ges[1].val.dv()));
            assert(dvs[2] == (ges[2].key@, ges[2].val.dv()));
            assert(dvs[3] == (ges[3].key@, ges[3].val.dv()));
            assert(dvs[4] == (ges[4].key@, ges[4].val.dv()));
            assert(r.dv()->Obj_0 =~~= self.jval()->Obj_0);
            assert(r.dv() =~~= self.jval());
            assert(ges[0].val.wf());
            assert(ges[1].val.wf());
            assert(ges[2].val.wf());
            assert(ges[3].val.wf());
            assert(ges[4].val.wf());
        }
        r
    }

    fn from_jval(v: &JsonVal) -> (r: Option<AssetBalance>) {
        match v {
            JsonVal::Obj(entries) => {
                let shape = entries.len() == 5 && str_eq(entries[0].key.as_str(), "denom") && str_eq(entries[1].key.as_str(), "leveraged") && str_eq(entries[2].key.as_str(), "reserved") && str_eq(entries[3].key.as_str(), "fees") && str_eq(entries[4].key.as_str(), "interest");
                proof {
                    let dvs = v.dv()->Obj_0;
                    assert(dvs.len() == entries@.len());
                    if entries@.len() == 5 {
                        assert(dvs[0] == (entries@[0].key@, entries@[0].val.dv()));
                        assert(dvs[1] == (entries@[1].key@, entries@[1].val.dv()));
                        assert(dvs[2] == (entries@[2].key@, entries@[2].val.dv()));
                        assert(dvs[3] == (entries@[3].key@, entries@[3].val.dv()));
                        assert(dvs[4] == (entries@[4].key@, entries@[4].val.dv()));
                    }
                }
                if shape {
                    let g0: Option<String> = WireRecord::from_jval(&entries[0].val);
                    let g1: Option<Decimal> = WireRecord::from_jval(&entries[1].val);
                    let g2: Option<Decimal> = WireRecord::from_jval(&entries[2].val);
                    let g3: Option<Decimal> = WireRecord::from_jval(&entries[3].val);
                    let g4: Option<Decimal> = WireRecord::from_jval(&entries[4].val);
                    match (g0, g1, g2, g3, g4) {
                        (Some(h0), Some(h1), Some(h2), Some(h3), Some(h4)) => {
                            let x = AssetBalance { denom: h0, leveraged: h1, reserved: h2, fees: h3, interest: h4 };
                            proof {
                                assert(x.jval()->Obj_0 =~~= v.dv()->Obj_0);
                                assert(x.jval() =~~= v.dv());
                            }
                            Some(x)
                        },
                        _ => {
                            proof {
                                assert forall|x: AssetBalance| v.dv() != #[trigger] x.jval() by {
                                    if v.dv() == x.jval() {
                                        assert(v.dv()->Obj_0[0].1 == x.denom.jval());
                                        assert(v.dv()->Obj_0[1].1 == x.leveraged.jval());
                                        assert(v.dv()->Obj_0[2].1 == x.reserved.jval());
                                        assert(v.dv()->Obj_0[3].1 == x.fees.jval());
                                        assert(v.dv()->Obj_0[4].1 == x.interest.jval());
                                    }
                                }
                            }
                            None
                        },
                    }
                } else {
                    proof {
                        assert forall|x: AssetBalance| v.dv() != #[trigger] x.jval() by {
                            if v.dv() == x.jval() {
                                assert(v.dv()->Obj_0.len() == 5);
                                assert(v.dv()->Obj_0[0].0 == "denom"@);
                                assert(v.dv()->Obj_0[1].0 == "leveraged"@);
                                assert(v.dv()->Obj_0[2].0 == "reserved"@);
                                assert(v.dv()->Obj_0[3].0 == "fees"@);
                                assert(v.dv()->Obj_0[4].0 == "interest"@);
                            }
                        }
                    }
                    None
                }
            },
            _ => None,
        }
    }
}
/// The balances of one metoken index.
#[derive(Clone, Debug, PartialEq, Eq)]
pub struct IndexBalances {
    pub metoken_supply: Coin,
    pub asset_balances: Vec<AssetBalance>,
}
impl WireRecord for IndexBalances {
    open spec fn jval(self) -> JsonSpec {
        JsonSpec::Obj(
            seq![
                ("metoken_supply"@, self.metoken_supply.jval()),
                ("asset_balances"@, self.asset_balances.jval()),
            ],
        )
    }

    proof fn jval_wf(self) {
        self.metoken_supply.jval_wf();
        self.asset_balances.jval_wf();
        assert forall|k: int| 0 <= k < self.jval()->Obj_0.len() implies json_wf(
            #[trigger] self.jval()->Obj_0[k].1,
        ) by {
            if k == 0 {
                assert(json_wf(self.jval()->Obj_0[0].1));
            }
            if k == 1 {
                assert(json_wf(self.jval()->Obj_0[1].1));
            }
        }
    }

    fn build_jval(&self) -> (r: JsonVal) {
        let mut entries: Vec<JsonEntry> = Vec::new();
        entries.push(JsonEntry { key: String::from_str("metoken_supply"), val: self.metoken_supply.build_jval() });
        entries.push(JsonEntry { key: String::from_str("asset_balances"), val: self.asset_balances.build_jval() });
        let ghost ges = entries@;
        let r = JsonVal::Obj(entries);
        proof {
            let dvs = r.dv()->Obj_0;
            assert(dvs.len() == 2);
            assert(dvs[0] == (ges[0].key@, ges[0].val.dv()));
            assert(dvs[1] == (ges[1].key@, ges[1].val.dv()));
            assert(r.dv()->Obj_0 =~~= self.jval()->Obj_0);
            assert(r.dv() =~~= self.jval());
            assert(ges[0].val.wf());
            assert(ges[1].val.wf());
        }
        r
    }

    fn from_jval(v: &JsonVal) -> (r: Option<IndexBalances>) {
        match v {
            JsonVal::Obj(entries) => {
                let shape = entries.len() == 2 && str_eq(entries[0].key.as_str(), "metoken_supply") && str_eq(entries[1].key.as_str(), "asset_balances");
                proof {
                    let dvs = v.dv()->Obj_0;
                    assert(dvs.len() == entries@.len());
                    if entries@.len() == 2 {
                        assert(dvs[0] == (entries@[0].key@, entries@[0].val.dv()));
                        assert(dvs[1] == (entries@[1].key@, entries@[1].val.dv()));
                    }
                }
                if shape {
                    let g0: Option<Coin> = WireRecord::from_jval(&entries[0].val);
                    let g1: Option<Vec<AssetBalance>> = WireRecord::from_jval(&entries[1].val);
                    match (g0, g1) {
                        (Some(h0), Some(h1)) => {
                            let x = IndexBalances { metoken_supply: h0, asset_balances: h1 };
                            proof {
                                assert(x.jval()->Obj_0 =~~= v.dv()->Obj_0);
                                assert(x.jval() =~~= v.dv());
                            }
                            Some(x)
                        },
                        _ => {
                            proof {
                                assert forall|x: IndexBalances| v.dv() != #[trigger] x.jval() by {
                                    if v.dv() == x.jval() {
                                        assert(v.dv()->Obj_0[0].1 == x.metoken_supply.jval());
                                        assert(v.dv()->Obj_0[1].1 == x.asset_balances.jval());
                                    }
                                }
                            }
                            None
                        },
                    }
                } else {
                    proof {
                        assert forall|x: IndexBalances| v.dv() != #[trigger] x.jval() by {
                            if v.dv() == x.jval() {
                                assert(v.dv()->Obj_0.len() == 2);
                                assert(v.dv()->Obj_0[0].0 == "metoken_supply"@);
                                assert(v.dv()->Obj_0[1].0 == "asset_balances"@);
                            }
                        }
                    }
                    None
                }
            },
            _ => None,
        }
    }
}
/// One asset's price and conversion rates.
#[derive(Clone, Debug, PartialEq, Eq)]
pub struct AssetPrice {
    pub base_denom: String,
    pub symbol_denom: String,
    pub price: String,
    pub exponent: u32,
    pub swap_rate: String,
    pub redeem_rate: String,
}
impl WireRecord for AssetPrice {
    open spec fn jval(self) -> JsonSpec {
        JsonSpec::Obj(
            seq![
                ("base_denom"@, self.base_denom.jval()),
                ("symbol_denom"@, self.symbol_denom.jval()),
                ("price"@, self.price.jval()),
                ("exponent"@, self.exponent.jval()),
                ("swap_rate"@, self.swap_rate.jval()),
                ("redeem_rate"@, self.redeem_rate.jval()),
            ],
        )
    }

    proof fn jval_wf(self) {
        self.base_denom.jval_wf();
        self.symbol_denom.jval_wf();
        self.price.jval_wf();
        self.exponent.jval_wf();
        self.swap_rate.jval_wf();
        self.redeem_rate.jval_wf();
        assert forall|k: int| 0 <= k < self.jval()->Obj_0.len() implies json_wf(
            #[trigger] self.jval()->Obj_0[k].1,
        ) by {
            if k == 0 {
                assert(json_wf(self.jval()->Obj_0[0].1));
            }
            if k == 1 {
                assert(json_wf(self.jval()->Obj_0[1].1));
            }
            if k == 2 {
                assert(json_wf(self.jval()->Obj_0[2].1));
            }
            if k == 3 {
                assert(json_wf(self.jval()->Obj_0[3].1));
            }
            if k == 4 {
                assert(json_wf(self.jval()->Obj_0[4].1));
            }
            if k == 5 {
                assert(json_wf(self.jval()->Obj_0[5].1));
            }
        }
    }

    fn build_jval(&self) -> (r: JsonVal) {
        let mut entries: Vec<JsonEntry> = Vec::new();
        entries.push(JsonEntry { key: String::from_str("base_denom"), val: self.base_denom.build_jval() });
        entries.push(JsonEntry { key: String::from_str("symbol_denom"), val: self.symbol_denom.build_jval() });
        entries.push(JsonEntry { key: String::from_str("price"), val: self.price.build_jval() });
        entries.push(JsonEntry { key: String::from_str("exponent"), val: self.exponent.build_jval() });
        entries.push(JsonEntry { key: String::from_str("swap_rate"), val: self.swap_rate.build_jval() });
        entries.push(JsonEntry { key: String::from_str("redeem_rate"), val: self.redeem_rate.build_jval() });
        let ghost ges = entries@;
        let r = JsonVal::Obj(entries);
        proof {
            let dvs = r.dv()->Obj_0;
            assert(dvs.len() == 6);
            assert(dvs[0] == (ges[0].key@, ges[0].val.dv()));
            assert(dvs[1] == (ges[1].key@, ges[1].val.dv()));
            assert(dvs[2] == (ges[2].key@, ges[2].val.dv()));
            assert(dvs[3] == (ges[3].key@, ges[3].val.dv()));
            assert(dvs[4] == (ges[4].key@, ges[4].val.dv()));
            assert(dvs[5] == (ges[5].key@, ges[5].val.dv()));
            assert(r.dv()->Obj_0 =~~= self.jval()->Obj_0);
            assert(r.dv() =~~= self.jval());
            assert(ges[0].val.wf());
            assert(ges[1].val.wf());
            assert(ges[2].val.wf());
            assert(ges[3].val.wf());
            assert(ges[4].val.wf());
            assert(ges[5].val.wf());
        }
        r
    }

    fn from_jval(v: &JsonVal) -> (r: Option<AssetPrice>) {
        match v {
            JsonVal::Obj(entries) => {
                let shape = entries.len() == 6 && str_eq(entries[0].key.as_str(), "base_denom") && str_eq(entries[1].key.as_str(), "symbol_denom") && str_eq(entries[2].key.as_str(), "price") && str_eq(entries[3].key.as_str(), "exponent") && str_eq(entries[4].key.as_str(), "swap_rate") && str_eq(entries[5].key.as_str(), "redeem_rate");
                proof {
                    let dvs = v.dv()->Obj_0;
                    assert(dvs.len() == entries@.len());
                    if entries@.len() == 6 {
                        assert(dvs[0] == (entries@[0].key@, entries@[0].val.dv()));
                        assert(dvs[1] == (entries@[1].key@, entries@[1].val.dv()));
                        assert(dvs[2] == (entries@[2].key@, entries@[2].val.dv()));
                        assert(dvs[3] == (entries@[3].key@, entries@[3].val.dv()));
                        assert(dvs[4] == (entries@[4].key@, entries@[4].val.dv()));
                        assert(dvs[5] == (entries@[5].key@, entries@[5].val.dv()));
                    }
                }
                if shape {
                    let g0: Option<String> = WireRecord::from_jval(&entries[0].val);
                    let g1: Option<String> = WireRecord::from_jval(&entries[1].val);
                    let g2: Option<String> = WireRecord::from_jval(&entries[2].val);
                    let g3: Option<u32> = WireRecord::from_jval(&entries[3].val);
                    let g4: Option<String> = WireRecord::from_jval(&entries[4].val);
                    let g5: Option<String> = WireRecord::from_jval(&entries[5].val);
                    match (g0, g1, g2, g3, g4, g5) {
                        (Some(h0), Some(h1), Some(h2), Some(h3), Some(h4), Some(h5)) => {
                            let x = AssetPrice { base_denom: h0, symbol_denom: h1, price: h2, exponent: h3, swap_rate: h4, redeem_rate: h5 };
                            proof {
                                assert(x.jval()->Obj_0 =~~= v.dv()->Obj_0);
                                assert(x.jval() =~~= v.dv());
                            }
                            Some(x)
                        },
                        _ => {
                            proof {
                                assert forall|x: AssetPrice| v.dv() != #[trigger] x.jval() by {
                                    if v.dv() == x.jval() {
                                        assert(v.dv()->Obj_0[0].1 == x.base_denom.jval());
                                        assert(v.dv()->Obj_0[1].1 == x.symbol_denom.jval());
                                        assert(v.dv()->Obj_0[2].1 == x.price.jval());
                                        assert(v.dv()->Obj_0[3].1 == x.exponent.jval());
                                        assert(v.dv()->Obj_0[4].1 == x.swap_rate.jval());
                                        assert(v.dv()->Obj_0[5].1 == x.redeem_rate.jval());
                                    }
                                }
                            }
                            None
                        },
                    }
                } else {
                    proof {
                        assert forall|x: AssetPrice| v.dv() != #[trigger] x.jval() by {
                            if v.dv() == x.jval() {
                                assert(v.dv()->Obj_0.len() == 6);
                                assert(v.dv()->Obj_0[0].0 == "base_denom"@);
                                assert(v.dv()->Obj_0[1].0 == "symbol_denom"@);
                                assert(v.dv()->Obj_0[2].0 == "price"@);
                                assert(v.dv()->Obj_0[3].0 == "exponent"@);
                                assert(v.dv()->Obj_0[4].0 == "swap_rate"@);
                                assert(v.dv()->Obj_0[5].0 == "redeem_rate"@);
                            }
                        }
                    }
                    None
                }
            },
            _ => None,
        }
    }
}
/// The prices of one metoken index.
#[derive(Clone, Debug, PartialEq, Eq)]
pub struct IndexPrices {
    pub denom: String,
    pub price: String,
    pub exponent: u32,
    pub assets: Vec<AssetPrice>,
}
impl WireRecord for IndexPrices {
    open spec fn jval(self) -> JsonSpec {
        JsonSpec::Obj(
            seq![
                ("denom"@, self.denom.jval()),
                ("price"@, self.price.jval()),
                ("exponent"@, self.exponent.jval()),
                ("assets"@, self.assets.jval()),
            ],
        )
    }

    proof fn jval_wf(self) {
        self.denom.jval_wf();
        self.price.jval_wf();
        self.exponent.jval_wf();
        self.assets.jval_wf();
        assert forall|k: int| 0 <= k < self.jval()->Obj_0.len() implies json_wf(
            #[trigger] self.jval()->Obj_0[k].1,
        ) by {
            if k == 0 {
                assert(json_wf(self.jval()->Obj_0[0].1));
            }
            if k == 1 {
                assert(json_wf(self.jval()->Obj_0[1].1));
            }
            if k == 2 {
                assert(json_wf(self.jval()->Obj_0[2].1));
            }
            if k == 3 {
                assert(json_wf(self.jval()->Obj_0[3].1));
            }
        }
    }

    fn build_jval(&self) -> (r: JsonVal) {
        let mut entries: Vec<JsonEntry> = Vec::new();
        entries.push(JsonEntry { key: String::from_str("denom"), val: self.denom.build_jval() });
        entries.push(JsonEntry { key: String::from_str("price"), val: self.price.build_jval() });
        entries.push(JsonEntry { key: String::from_str("exponent"), val: self.exponent.build_jval() });
        entries.push(JsonEntry { key: String::from_str("assets"), val: self.assets.build_jval() });
        let ghost ges = entries@;
        let r = JsonVal::Obj(entries);
        proof {
            let dvs = r.dv()->Obj_0;
            assert(dvs.len() == 4);
            assert(dvs[0] == (ges[0].key@, ges[0].val.dv()));
            assert(dvs[1] == (ges[1].key@, ges[1].val.dv()));
            assert(dvs[2] == (ges[2].key@, ges[2].val.dv()));
            assert(dvs[3] == (ges[3].key@, ges[3].val.dv()));
            assert(r.dv()->Obj_0 =~~= self.jval()->Obj_0);
            assert(r.dv() =~~= self.jval());
            assert(ges[0].val.wf());
            assert(ges[1].val.wf());
            assert(ges[2].val.wf());
            assert(ges[3].val.wf());
        }
        r
    }

    fn from_jval(v: &JsonVal) -> (r: Option<IndexPrices>) {
        match v {
            JsonVal::Obj(entries) => {
                let shape = entries.len() == 4 && str_eq(entries[0].key.as_str(), "denom") && str_eq(entries[1].key.as_str(), "price") && str_eq(entries[2].key.as_str(), "exponent") && str_eq(entries[3].key.as_str(), "assets");
                proof {
                    let dvs = v.dv()->Obj_0;
                    assert(dvs.len() == entries@.len());
                    if entries@.len() == 4 {
                        assert(dvs[0] == (entries@[0].key@, entries@[0].val.dv()));
                        assert(dvs[1] == (entries@[1].key@, entries@[1].val.dv()));
                        assert(dvs[2] == (entries@[2].key@, entries@[2].val.dv()));
                        assert(dvs[3] == (entries@[3].key@, entries@[3].val.dv()));
                    }
                }
                if shape {
                    let g0: Option<String> = WireRecord::from_jval(&entries[0].val);
                    let g1: Option<String> = WireRecord::from_jval(&entries[1].val);
                    let g2: Option<u32> = WireRecord::from_jval(&entries[2].val);
                    let g3: Option<Vec<AssetPrice>> = WireRecord::from_jval(&entries[3].val);
                    match (g0, g1, g2, g3) {
                        (Some(h0), Some(h1), Some(h2), Some(h3)) => {
                            let x = IndexPrices { denom: h0, price: h1, exponent: h2, assets: h3 };
                            proof {
                                assert(x.jval()->Obj_0 =~~= v.dv()->Obj_0);
                                assert(x.jval() =~~= v.dv());
                            }
                            Some(x)
                        },
                        _ => {
                            proof {
                                assert forall|x: IndexPrices| v.dv() != #[trigger] x.jval() by {
                                    if v.dv() == x.jval() {
                                        assert(v.dv()->Obj_0[0].1 == x.denom.jval());
                                        assert(v.dv()->Obj_0[1].1 == x.price.jval());
                                        assert(v.dv()->Obj_0[2].1 == x.exponent.jval());
                                        assert(v.dv()->Obj_0[3].1 == x.assets.jval());
                                    }
                                }
                            }
                            None
                        },
                    }
                } else {
                    proof {
                        assert forall|x: IndexPrices| v.dv() != #[trigger] x.jval() by {
                            if v.dv() == x.jval() {
                                assert(v.dv()->Obj_0.len() == 4);
                                assert(v.dv()->Obj_0[0].0 == "denom"@);
                                assert(v.dv()->Obj_0[1].0 == "price"@);
                                assert(v.dv()->Obj_0[2].0 == "exponent"@);
                                assert(v.dv()->Obj_0[3].0 == "assets"@);
                            }
                        }
                    }
                    None
                }
            },
            _ => None,
        }
    }
}
/// The balances and prices of the requested indexes.
#[derive(Clone, Debug, PartialEq, Eq)]
pub struct MetokenIndexbalancesResponse {
    pub index_balances: Vec<IndexBalances>,
    pub index_prices: Vec<IndexPrices>,
}
impl WireRecord for MetokenIndexbalancesResponse {
    open spec fn jval(self) -> JsonSpec {
        JsonSpec::Obj(
            seq![
                ("index_balances"@, self.index_balances.jval()),
                ("index_prices"@, self.index_prices.jval()),
            ],
        )
    }

    proof fn jval_wf(self) {
        self.index_balances.jval_wf();
        self.index_prices.jval_wf();
        assert forall|k: int| 0 <= k < self.jval()->Obj_0.len() implies json_wf(
            #[trigger] self.jval()->Obj_0[k].1,
        ) by {
            if k == 0 {
                assert(json_wf(self.jval()->Obj_0[0].1));
            }
            if k == 1 {
                assert(json_wf(self.jval()->Obj_0[1].1));
            }
        }
    }

    fn build_jval(&self) -> (r: JsonVal) {
        let mut entries: Vec<JsonEntry> = Vec::new();
        entries.push(JsonEntry { key: String::from_str("index_balances"), val: self.index_balances.build_jval() });
        entries.push(JsonEntry { key: String::from_str("index_prices"), val: self.index_prices.build_jval() });
        let ghost ges = entries@;
        let r = JsonVal::Obj(entries);
        proof {
            let dvs = r.dv()->Obj_0;
            assert(dvs.len() == 2);
            assert(dvs[0] == (ges[0].key@, ges[0].val.dv()));
            assert(dvs[1] == (ges[1].key@, ges[1].val.dv()));
            assert(r.dv()->Obj_0 =~~= self.jval()->Obj_0);
            assert(r.dv() =~~= self.jval());
            assert(ges[0].val.wf());
            assert(ges[1].val.wf());
        }
        r
    }

    fn from_jval(v: &JsonVal) -> (r: Option<MetokenIndexbalancesResponse>) {
        match v {
            JsonVal::Obj(entries) => {
                let shape = entries.len() == 2 && str_eq(entries[0].key.as_str(), "index_balances") && str_eq(entries[1].key.as_str(), "index_prices");
                proof {
                    let dvs = v.dv()->Obj_0;
                    assert(dvs.len() == entries@.len());
                    if entries@.len() == 2 {
                        assert(dvs[0] == (entries@[0].key@, entries@[0].val.dv()));
                        assert(dvs[1] == (entries@[1].key@, entries@[1].val.dv()));
                    }
                }
                if shape {
                    let g0: Option<Vec<IndexBalances>> = WireRecord::from_jval(&entries[0].val);
                    let g1: Option<Vec<IndexPrices>> = WireRecord::from_jval(&entries[1].val);
                    match (g0, g1) {
                        (Some(h0), Some(h1)) => {
                            let x = MetokenIndexbalancesResponse { index_balances: h0, index_prices: h1 };
                            proof {
                                assert(x.jval()->Obj_0 =~~= v.dv()->Obj_0);
                                assert(x.jval() =~~= v.dv());
                            }
                            Some(x)
                        },
                        _ => {
                            proof {
                                assert forall|x: MetokenIndexbalancesResponse| v.dv() != #[trigger] x.jval() by {
                                    if v.dv() == x.jval() {
                                        assert(v.dv()->Obj_0[0].1 == x.index_balances.jval());
                                        assert(v.dv()->Obj_0[1].1 == x.index_prices.jval());
                                    }
                                }
                            }
                            None
                        },
                    }
                } else {
                    proof {
                        assert forall|x: MetokenIndexbalancesResponse| v.dv() != #[trigger] x.jval() by {
                            if v.dv() == x.jval() {
                                assert(v.dv()->Obj_0.len() == 2);
                                assert(v.dv()->Obj_0[0].0 == "index_balances"@);
                                assert(v.dv()->Obj_0[1].0 == "index_prices"@);
                            }
                        }
                    }
                    None
                }
            },
            _ => None,
        }
    }
}
/// Asks for the prices of a metoken index.
#[derive(Clone, Debug, PartialEq, Eq)]
pub struct MetokenIndexPricesParams {
    pub metoken_denom: String,
}
impl WireRecord for MetokenIndexPricesParams {
    open spec fn jval(self) -> JsonSpec {
        JsonSpec::Obj(
            seq![
                ("metoken_denom"@, self.metoken_denom.jval()),
            ],
        )
    }

    proof fn jval_wf(self) {
        self.metoken_denom.jval_wf();
        assert forall|k: int| 0 <= k < self.jval()->Obj_0.len() implies json_wf(
            #[trigger] self.jval()->Obj_0[k].1,
        ) by {
            if k == 0 {
                assert(json_wf(self.jval()->Obj_0[0].1));
            }
        }
    }

    fn build_jval(&self) -> (r: JsonVal) {
        let mut entries: Vec<JsonEntry> = Vec::new();
        entries.push(JsonEntry { key: String::from_str("metoken_denom"), val: self.metoken_denom.build_jval() });
        let ghost ges = entries@;
        let r = JsonVal::Obj(entries);
        proof {
            let dvs = r.dv()->Obj_0;
            assert(dvs.len() == 1);
            assert(dvs[0] == (ges[0].key@, ges[0].val.dv()));
            assert(r.dv()->Obj_0 =~~= self.jval()->Obj_0);
            assert(r.dv() =~~= self.jval());
            assert(ges[0].val.wf());
        }
        r
    }

    fn from_jval(v: &JsonVal) -> (r: Option<MetokenIndexPricesParams>) {
        match v {
            JsonVal::Obj(entries) => {
                let shape = entries.len() == 1 && str_eq(entries[0].key.as_str(), "metoken_denom");
                proof {
                    let dvs = v.dv()->Obj_0;
                    assert(dvs.len() == entries@.len());
                    if entries@.len() == 1 {
                        assert(dvs[0] == (entries@[0].key@, entries@[0].val.dv()));
                    }
                }
                if shape {
                    let g0: Option<String> = WireRecord::from_jval(&entries[0].val);
                    match (g0) {
                        (Some(h0)) => {
                            let x = MetokenIndexPricesParams { metoken_denom: h0 };
                            proof {
                                assert(x.jval()->Obj_0 =~~= v.dv()->Obj_0);
                                assert(x.jval() =~~= v.dv());
                            }
                            Some(x)
                        },
                        _ => {
                            proof {
                                assert forall|x: MetokenIndexPricesParams| v.dv() != #[trigger] x.jval() by {
                                    if v.dv() == x.jval() {
                                        assert(v.dv()->Obj_0[0].1 == x.metoken_denom.jval());
                                    }
                                }
                            }
                            None
                        },
                    }
                } else {
                    proof {
                        assert forall|x: MetokenIndexPricesParams| v.dv() != #[trigger] x.jval() by {
                            if v.dv() == x.jval() {
                                assert(v.dv()->Obj_0.len() == 1);
                                assert(v.dv()->Obj_0[0].0 == "metoken_denom"@);
                            }
                        }
                    }
                    None
                }
            },
            _ => None,
        }
    }
}
/// The prices of the requested indexes.
#[derive(Clone, Debug, PartialEq, Eq)]
pub struct MetokenIndexPricesResponse {
    pub prices: Vec<IndexPrices>,
}
impl WireRecord for MetokenIndexPricesResponse {
    open spec fn jval(self) -> JsonSpec {
        JsonSpec::Obj(
            seq![
                ("prices"@, self.prices.jval()),
            ],
        )
    }

    proof fn jval_wf(self) {
        self.prices.jval_wf();
        assert forall|k: int| 0 <= k < self.jval()->Obj_0.len() implies json_wf(
            #[trigger] self.jval()->Obj_0[k].1,
        ) by {
            if k == 0 {
                assert(json_wf(self.jval()->Obj_0[0].1));
            }
        }
    }

    fn build_jval(&self) -> (r: JsonVal) {
        let mut entries: Vec<JsonEntry> = Vec::new();
        entries.push(JsonEntry { key: String::from_str("prices"), val: self.prices.build_jval() });
        let ghost ges = entries@;
        let r = JsonVal::Obj(entries);
        proof {
            let dvs = r.dv()->Obj_0;
            assert(dvs.len() == 1);
            assert(dvs[0] == (ges[0].key@, ges[0].val.dv()));
            assert(r.dv()->Obj_0 =~~= self.jval()->Obj_0);
            assert(r.dv() =~~= self.jval());
            assert(ges[0].val.wf());
        }
        r
    }

    fn from_jval(v: &JsonVal) -> (r: Option<MetokenIndexPricesResponse>) {
        match v {
            JsonVal::Obj(entries) => {
                let shape = entries.len() == 1 && str_eq(entries[0].key.as_str(), "prices");
                proof {
                    let dvs = v.dv()->Obj_0;
                    assert(dvs.len() == entries@.len());
                    if entries@.len() == 1 {
                        assert(dvs[0] == (entries@[0].key@, entries@[0].val.dv()));
                    }
                }
                if shape {
                    let g0: Option<Vec<IndexPrices>> = WireRecord::from_jval(&entries[0].val);
                    match (g0) {
                        (Some(h0)) => {
                            let x = MetokenIndexPricesResponse { prices: h0 };
                            proof {
                                assert(x.jval()->Obj_0 =~~= v.dv()->Obj_0);
                                assert(x.jval() =~~= v.dv());
                            }
                            Some(x)
                        },
                        _ => {
                            proof {
                                assert forall|x: MetokenIndexPricesResponse| v.dv() != #[trigger] x.jval() by {
                                    if v.dv() == x.jval() {
                                        assert(v.dv()->Obj_0[0].1 == x.prices.jval());
                                    }
                                }
                            }
                            None
                        },
                    }
                } else {
                    proof {
                        assert forall|x: MetokenIndexPricesResponse| v.dv() != #[trigger] x.jval() by {
                            if v.dv() == x.jval() {
                                assert(v.dv()->Obj_0.len() == 1);
                                assert(v.dv()->Obj_0[0].0 == "prices"@);
                            }
                        }
                    }
                    None
                }
            },
            _ => None,
        }
    }
}
/// Every query the metoken module group answers, tagged by kind.
#[derive(Clone, Debug, PartialEq, Eq)]
pub enum UmeeQueryMeToken {
    MetokenParameters(MetokenParametersParams),
    MetokenIndexes(MetokenIndexesParams),
    MetokenSwapfee(MetokenSwapfeeParams),
    MetokenRedeemfee(MetokenRedeemfeeParams),
    MetokenIndexbalances(MetokenIndexbalancesParams),
    MetokenIndexPrices(MetokenIndexPricesParams),
}
/// Length and distinguishing characters of every variant key of the
/// wire shape.
proof fn lemma_umee_query_me_token_keys()
    ensures
        "metoken_parameters"@.len() == 18,
        "metoken_indexes"@.len() == 15,
        "metoken_swapfee"@.len() == 15,
        "metoken_redeemfee"@.len() == 17,
        "metoken_indexbalances"@.len() == 21,
        "metoken_index_prices"@.len() == 20,
        "metoken_index_prices"@[0] == 'm',
        "metoken_indexbalances"@[0] == 'm',
        "metoken_indexes"@[0] == 'm',
        "metoken_indexes"@[8] == 'i',
        "metoken_parameters"@[0] == 'm',
        "metoken_redeemfee"@[0] == 'm',
        "metoken_swapfee"@[0] == 'm',
        "metoken_swapfee"@[8] == 's',
{
    reveal_strlit("metoken_parameters");
    assert("metoken_parameters"@ =~= seq!['m', 'e', 't', 'o', 'k', 'e', 'n', '_', 'p', 'a', 'r', 'a', 'm', 'e', 't', 'e', 'r', 's']);
    reveal_strlit("metoken_indexes");
    assert("metoken_indexes"@ =~= seq!['m', 'e', 't', 'o', 'k', 'e', 'n', '_', 'i', 'n', 'd', 'e', 'x', 'e', 's']);
    reveal_strlit("metoken_swapfee");
    assert("metoken_swapfee"@ =~= seq!['m', 'e', 't', 'o', 'k', 'e', 'n', '_', 's', 'w', 'a', 'p', 'f', 'e', 'e']);
    reveal_strlit("metoken_redeemfee");
    assert("metoken_redeemfee"@ =~= seq!['m', 'e', 't', 'o', 'k', 'e', 'n', '_', 'r', 'e', 'd', 'e', 'e', 'm', 'f', 'e', 'e']);
    reveal_strlit("metoken_indexbalances");
    assert("metoken_indexbalances"@ =~= seq!['m', 'e', 't', 'o', 'k', 'e', 'n', '_', 'i', 'n', 'd', 'e', 'x', 'b', 'a', 'l', 'a', 'n', 'c', 'e', 's']);
    reveal_strlit("metoken_index_prices");
    assert("metoken_index_prices"@ =~= seq!['m', 'e', 't', 'o', 'k', 'e', 'n', '_', 'i', 'n', 'd', 'e', 'x', '_', 'p', 'r', 'i', 'c', 'e', 's']);
}

/// Every value's wire record is a single-entry object.
proof fn lemma_umee_query_me_token_shape(x: UmeeQueryMeToken)
    ensures
        x.jval() is Obj,
        x.jval()->Obj_0.len() == 1,
{
    match x {
        UmeeQueryMeToken::MetokenParameters(q) => {
            assert(x.jval()->Obj_0.len() == 1);
        },
        UmeeQueryMeToken::MetokenIndexes(q) => {
            assert(x.jval()->Obj_0.len() == 1);
        },
        UmeeQueryMeToken::MetokenSwapfee(q) => {
            assert(x.jval()->Obj_0.len() == 1);
        },
        UmeeQueryMeToken::MetokenRedeemfee(q) => {
            assert(x.jval()->Obj_0.len() == 1);
        },
        UmeeQueryMeToken::MetokenIndexbalances(q) => {
            assert(x.jval()->Obj_0.len() == 1);
        },
        UmeeQueryMeToken::MetokenIndexPrices(q) => {
            assert(x.jval()->Obj_0.len() == 1);
        },
    }
}

/// A value whose wire record is this single entry is the variant the
/// entry's key names, and the entry's payload is that variant's.
proof fn lemma_umee_query_me_token_tag(x: UmeeQueryMeToken, e: (Seq<char>, JsonSpec))
    requires
        JsonSpec::Obj(seq![e]) == x.jval(),
    ensures
        ({
            ||| (x matches UmeeQueryMeToken::MetokenParameters(q) && e == ("metoken_parameters"@, q.jval()))
            ||| (x matches UmeeQueryMeToken::MetokenIndexes(q) && e == ("metoken_indexes"@, q.jval()))
            ||| (x matches UmeeQueryMeToken::MetokenSwapfee(q) && e == ("metoken_swapfee"@, q.jval()))
            ||| (x matches UmeeQueryMeToken::MetokenRedeemfee(q) && e == ("metoken_redeemfee"@, q.jval()))
            ||| (x matches UmeeQueryMeToken::MetokenIndexbalances(q) && e == ("metoken_indexbalances"@, q.jval()))
            ||| (x matches UmeeQueryMeToken::MetokenIndexPrices(q) && e == ("metoken_index_prices"@, q.jval()))
        }),
{
    match x {
        UmeeQueryMeToken::MetokenParameters(q) => {
            assert(x.jval()->Obj_0[0] == ("metoken_parameters"@, q.jval()));
            assert(e == ("metoken_parameters"@, q.jval()));
        },
        UmeeQueryMeToken::MetokenIndexes(q) => {
            assert(x.jval()->Obj_0[0] == ("metoken_indexes"@, q.jval()));
            assert(e == ("metoken_indexes"@, q.jval()));
        },
        UmeeQueryMeToken::MetokenSwapfee(q) => {
            assert(x.jval()->Obj_0[0] == ("metoken_swapfee"@, q.jval()));
            assert(e == ("metoken_swapfee"@, q.jval()));
        },
        UmeeQueryMeToken::MetokenRedeemfee(q) => {
            assert(x.jval()->Obj_0[0] == ("metoken_redeemfee"@, q.jval()));
            assert(e == ("metoken_redeemfee"@, q.jval()));
        },
        UmeeQueryMeToken::MetokenIndexbalances(q) => {
            assert(x.jval()->Obj_0[0] == ("metoken_indexbalances"@, q.jval()));
            assert(e == ("metoken_indexbalances"@, q.jval()));
        },
        UmeeQueryMeToken::MetokenIndexPrices(q) => {
            assert(x.jval()->Obj_0[0] == ("metoken_index_prices"@, q.jval()));
            assert(e == ("metoken_index_prices"@, q.jval()));
        },
    }
}

/// A single-entry wire shape under this key decodes only through its
/// own payload type.
proof fn lemma_umee_query_me_token_reject_metoken_parameters(e: (Seq<char>, JsonSpec))
    requires
        e.0 == "metoken_parameters"@,
        forall|y: MetokenParametersParams| e.1 != #[trigger] y.jval(),
    ensures
        forall|x: UmeeQueryMeToken| JsonSpec::Obj(seq![e]) != #[trigger] x.jval(),
{
    lemma_umee_query_me_token_keys();
    assert forall|x: UmeeQueryMeToken| JsonSpec::Obj(seq![e]) != #[trigger] x.jval() by {
        if JsonSpec::Obj(seq![e]) == x.jval() {
            lemma_umee_query_me_token_tag(x, e);
            match x {
                UmeeQueryMeToken::MetokenParameters(q) => {
                    assert(e.1 == q.jval());
                },
                _ => {},
            }
        }
    }
}

/// A single-entry wire shape under this key decodes only through its
/// own payload type.
proof fn lemma_umee_query_me_token_reject_metoken_indexes(e: (Seq<char>, JsonSpec))
    requires
        e.0 == "metoken_indexes"@,
        forall|y: MetokenIndexesParams| e.1 != #[trigger] y.jval(),
    ensures
        forall|x: UmeeQueryMeToken| JsonSpec::Obj(seq![e]) != #[trigger] x.jval(),
{
    lemma_umee_query_me_token_keys();
    assert forall|x: UmeeQueryMeToken| JsonSpec::Obj(seq![e]) != #[trigger] x.jval() by {
        if JsonSpec::Obj(seq![e]) == x.jval() {
            lemma_umee_query_me_token_tag(x, e);
            match x {
                UmeeQueryMeToken::MetokenIndexes(q) => {
                    assert(e.1 == q.jval());
                },
                _ => {},
            }
        }
    }
}

/// A single-entry wire shape under this key decodes only through its
/// own payload type.
proof fn lemma_umee_query_me_token_reject_metoken_swapfee(e: (Seq<char>, JsonSpec))
    requires
        e.0 == "metoken_swapfee"@,
        forall|y: MetokenSwapfeeParams| e.1 != #[trigger] y.jval(),
    ensures
        forall|x: UmeeQueryMeToken| JsonSpec::Obj(seq![e]) != #[trigger] x.jval(),
{
    lemma_umee_query_me_token_keys();
    assert forall|x: UmeeQueryMeToken| JsonSpec::Obj(seq![e]) != #[trigger] x.jval() by {
        if JsonSpec::Obj(seq![e]) == x.jval() {
            lemma_umee_query_me_token_tag(x, e);
            match x {
                UmeeQueryMeToken::MetokenSwapfee(q) => {
                    assert(e.1 == q.jval());
                },
                _ => {},
            }
        }
    }
}

/// A single-entry wire shape under this key decodes only through its
/// own payload type.
proof fn lemma_umee_query_me_token_reject_metoken_redeemfee(e: (Seq<char>, JsonSpec))
    requires
        e.0 == "metoken_redeemfee"@,
        forall|y: MetokenRedeemfeeParams| e.1 != #[trigger] y.jval(),
    ensures
        forall|x: UmeeQueryMeToken| JsonSpec::Obj(seq![e]) != #[trigger] x.jval(),
{
    lemma_umee_query_me_token_keys();
    assert forall|x: UmeeQueryMeToken| JsonSpec::Obj(seq![e]) != #[trigger] x.jval() by {
        if JsonSpec::Obj(seq![e]) == x.jval() {
            lemma_umee_query_me_token_tag(x, e);
            match x {
                UmeeQueryMeToken::MetokenRedeemfee(q) => {
                    assert(e.1 == q.jval());
                },
                _ => {},
            }
        }
    }
}

/// A single-entry wire shape under this key decodes only through its
/// own payload type.
proof fn lemma_umee_query_me_token_reject_metoken_indexbalances(e: (Seq<char>, JsonSpec))
    requires
        e.0 == "metoken_indexbalances"@,
        forall|y: MetokenIndexbalancesParams| e.1 != #[trigger] y.jval(),
    ensures
        forall|x: UmeeQueryMeToken| JsonSpec::Obj(seq![e]) != #[trigger] x.jval(),
{
    lemma_umee_query_me_token_keys();
    assert forall|x: UmeeQueryMeToken| JsonSpec::Obj(seq![e]) != #[trigger] x.jval() by {
        if JsonSpec::Obj(seq![e]) == x.jval() {
            lemma_umee_query_me_token_tag(x, e);
            match x {
                UmeeQueryMeToken::MetokenIndexbalances(q) => {
                    assert(e.1 == q.jval());
                },
                _ => {},
            }
        }
    }
}

/// A single-entry wire shape under this key decodes only through its
/// own payload type.
proof fn lemma_umee_query_me_token_reject_metoken_index_prices(e: (Seq<char>, JsonSpec))
    requires
        e.0 == "metoken_index_prices"@,
        forall|y: MetokenIndexPricesParams| e.1 != #[trigger] y.jval(),
    ensures
        forall|x: UmeeQueryMeToken| JsonSpec::Obj(seq![e]) != #[trigger] x.jval(),
{
    lemma_umee_query_me_token_keys();
    assert forall|x: UmeeQueryMeToken| JsonSpec::Obj(seq![e]) != #[trigger] x.jval() by {
        if JsonSpec::Obj(seq![e]) == x.jval() {
            lemma_umee_query_me_token_tag(x, e);
            match x {
                UmeeQueryMeToken::MetokenIndexPrices(q) => {
                    assert(e.1 == q.jval());
                },
                _ => {},
            }
        }
    }
}

/// A single-entry wire shape under an unknown key decodes to nothing.
proof fn lemma_umee_query_me_token_reject_other(e: (Seq<char>, JsonSpec))
    requires
        e.0 != "metoken_parameters"@,
        e.0 != "metoken_indexes"@,
        e.0 != "metoken_swapfee"@,
        e.0 != "metoken_redeemfee"@,
        e.0 != "metoken_indexbalances"@,
        e.0 != "metoken_index_prices"@,
    ensures
        forall|x: UmeeQueryMeToken| JsonSpec::Obj(seq![e]) != #[trigger] x.jval(),
{
    assert forall|x: UmeeQueryMeToken| JsonSpec::Obj(seq![e]) != #[trigger] x.jval() by {
        if JsonSpec::Obj(seq![e]) == x.jval() {
            lemma_umee_query_me_token_tag(x, e);
        }
    }
}

impl WireRecord for UmeeQueryMeToken {
    open spec fn jval(self) -> JsonSpec {
        match self {
            UmeeQueryMeToken::MetokenParameters(p) => JsonSpec::Obj(seq![("metoken_parameters"@, p.jval())]),
            UmeeQueryMeToken::MetokenIndexes(p) => JsonSpec::Obj(seq![("metoken_indexes"@, p.jval())]),
            UmeeQueryMeToken::MetokenSwapfee(p) => JsonSpec::Obj(seq![("metoken_swapfee"@, p.jval())]),
            UmeeQueryMeToken::MetokenRedeemfee(p) => JsonSpec::Obj(seq![("metoken_redeemfee"@, p.jval())]),
            UmeeQueryMeToken::MetokenIndexbalances(p) => JsonSpec::Obj(seq![("metoken_indexbalances"@, p.jval())]),
            UmeeQueryMeToken::MetokenIndexPrices(p) => JsonSpec::Obj(seq![("metoken_index_prices"@, p.jval())]),
        }
    }

    proof fn jval_wf(self) {
        match self {
            UmeeQueryMeToken::MetokenParameters(p) => {
                p.jval_wf();
                assert forall|k: int| 0 <= k < self.jval()->Obj_0.len() implies json_wf(
                    #[trigger] self.jval()->Obj_0[k].1,
                ) by {
                    assert(json_wf(self.jval()->Obj_0[0].1));
                }
            },
            UmeeQueryMeToken::MetokenIndexes(p) => {
                p.jval_wf();
                assert forall|k: int| 0 <= k < self.jval()->Obj_0.len() implies json_wf(
                    #[trigger] self.jval()->Obj_0[k].1,
                ) by {
                    assert(json_wf(self.jval()->Obj_0[0].1));
                }
            },
            UmeeQueryMeToken::MetokenSwapfee(p) => {
                p.jval_wf();
                assert forall|k: int| 0 <= k < self.jval()->Obj_0.len() implies json_wf(
                    #[trigger] self.jval()->Obj_0[k].1,
                ) by {
                    assert(json_wf(self.jval()->Obj_0[0].1));
                }
            },
            UmeeQueryMeToken::MetokenRedeemfee(p) => {
                p.jval_wf();
                assert forall|k: int| 0 <= k < self.jval()->Obj_0.len() implies json_wf(
                    #[trigger] self.jval()->Obj_0[k].1,
                ) by {
                    assert(json_wf(self.jval()->Obj_0[0].1));
                }
            },
            UmeeQueryMeToken::MetokenIndexbalances(p) => {
                p.jval_wf();
                assert forall|k: int| 0 <= k < self.jval()->Obj_0.len() implies json_wf(
                    #[trigger] self.jval()->Obj_0[k].1,
                ) by {
                    assert(json_wf(self.jval()->Obj_0[0].1));
                }
            },
            UmeeQueryMeToken::MetokenIndexPrices(p) => {
                p.jval_wf();
                assert forall|k: int| 0 <= k < self.jval()->Obj_0.len() implies json_wf(
                    #[trigger] self.jval()->Obj_0[k].1,
                ) by {
                    assert(json_wf(self.jval()->Obj_0[0].1));
                }
            },
        }
    }

    fn build_jval(&self) -> (r: JsonVal) {
        match self {
            UmeeQueryMeToken::MetokenParameters(p) => {
                let mut entries: Vec<JsonEntry> = Vec::new();
                entries.push(JsonEntry { key: String::from_str("metoken_parameters"), val: p.build_jval() });
                let ghost ges = entries@;
                let r = JsonVal::Obj(entries);
                proof {
                    assert(r.dv()->Obj_0[0] == (ges[0].key@, ges[0].val.dv()));
                    assert(r.dv()->Obj_0 =~~= self.jval()->Obj_0);
                    assert(r.dv() =~~= self.jval());
                    assert(ges[0].val.wf());
                }
                r
            },
            UmeeQueryMeToken::MetokenIndexes(p) => {
                let mut entries: Vec<JsonEntry> = Vec::new();
                entries.push(JsonEntry { key: String::from_str("metoken_indexes"), val: p.build_jval() });
                let ghost ges = entries@;
                let r = JsonVal::Obj(entries);
                proof {
                    assert(r.dv()->Obj_0[0] == (ges[0].key@, ges[0].val.dv()));
                    assert(r.dv()->Obj_0 =~~= self.jval()->Obj_0);
                    assert(r.dv() =~~= self.jval());
                    assert(ges[0].val.wf());
                }
                r
            },
            UmeeQueryMeToken::MetokenSwapfee(p) => {
                let mut entries: Vec<JsonEntry> = Vec::new();
                entries.push(JsonEntry { key: String::from_str("metoken_swapfee"), val: p.build_jval() });
                let ghost ges = entries@;
                let r = JsonVal::Obj(entries);
                proof {
                    assert(r.dv()->Obj_0[0] == (ges[0].key@, ges[0].val.dv()));
                    assert(r.dv()->Obj_0 =~~= self.jval()->Obj_0);
                    assert(r.dv() =~~= self.jval());
                    assert(ges[0].val.wf());
                }
                r
            },
            UmeeQueryMeToken::MetokenRedeemfee(p) => {
                let mut entries: Vec<JsonEntry> = Vec::new();
                entries.push(JsonEntry { key: String::from_str("metoken_redeemfee"), val: p.build_jval() });
                let ghost ges = entries@;
                let r = JsonVal::Obj(entries);
                proof {
                    assert(r.dv()->Obj_0[0] == (ges[0].key@, ges[0].val.dv()));
                    assert(r.dv()->Obj_0 =~~= self.jval()->Obj_0);
                    assert(r.dv() =~~= self.jval());
                    assert(ges[0].val.wf());
                }
                r
            },
            UmeeQueryMeToken::MetokenIndexbalances(p) => {
                let mut entries: Vec<JsonEntry> = Vec::new();
                entries.push(JsonEntry { key: String::from_str("metoken_indexbalances"), val: p.build_jval() });
                let ghost ges = entries@;
                let r = JsonVal::Obj(entries);
                proof {
                    assert(r.dv()->Obj_0[0] == (ges[0].key@, ges[0].val.dv()));
                    assert(r.dv()->Obj_0 =~~= self.jval()->Obj_0);
                    assert(r.dv() =~~= self.jval());
                    assert(ges[0].val.wf());
                }
                r
            },
            UmeeQueryMeToken::MetokenIndexPrices(p) => {
                let mut entries: Vec<JsonEntry> = Vec::new();
                entries.push(JsonEntry { key: String::from_str("metoken_index_prices"), val: p.build_jval() });
                let ghost ges = entries@;
                let r = JsonVal::Obj(entries);
                proof {
                    assert(r.dv()->Obj_0[0] == (ges[0].key@, ges[0].val.dv()));
                    assert(r.dv()->Obj_0 =~~= self.jval()->Obj_0);
                    assert(r.dv() =~~= self.jval());
                    assert(ges[0].val.wf());
                }
                r
            },
        }
    }

    fn from_jval(v: &JsonVal) -> (r: Option<UmeeQueryMeToken>) {
        match v {
            JsonVal::Obj(entries) => {
                if entries.len() == 1 {
                    proof {
                        assert(v.dv()->Obj_0[0] == (entries@[0].key@, entries@[0].val.dv()));
                        assert(v.dv()->Obj_0 =~~= seq![(entries@[0].key@, entries@[0].val.dv())]);
                        assert(v.dv() =~~= JsonSpec::Obj(seq![(entries@[0].key@, entries@[0].val.dv())]));
                    }
                    let key = entries[0].key.as_str();
                    if str_eq(key, "metoken_parameters") {
                        match WireRecord::from_jval(&entries[0].val) {
                            Some(p) => {
                                let x = UmeeQueryMeToken::MetokenParameters(p);
                                proof {
                                    assert(x.jval()->Obj_0 =~~= v.dv()->Obj_0);
                                    assert(x.jval() =~~= v.dv());
                                }
                                Some(x)
                            },
                            None => {
                                proof {
                                    lemma_umee_query_me_token_reject_metoken_parameters((entries@[0].key@, entries@[0].val.dv()));
                                }
                                None
                            },
                        }
                    } else if str_eq(key, "metoken_indexes") {
                        match WireRecord::from_jval(&entries[0].val) {
                            Some(p) => {
                                let x = UmeeQueryMeToken::MetokenIndexes(p);
                                proof {
                                    assert(x.jval()->Obj_0 =~~= v.dv()->Obj_0);
                                    assert(x.jval() =~~= v.dv());
                                }
                                Some(x)
                            },
                            None => {
                                proof {
                                    lemma_umee_query_me_token_reject_metoken_indexes((entries@[0].key@, entries@[0].val.dv()));
                                }
                                None
                            },
                        }
                    } else if str_eq(key, "metoken_swapfee") {
                        match WireRecord::from_jval(&entries[0].val) {
                            Some(p) => {
                                let x = UmeeQueryMeToken::MetokenSwapfee(p);
                                proof {
                                    assert(x.jval()->Obj_0 =~~= v.dv()->Obj_0);
                                    assert(x.jval() =~~= v.dv());
                                }
                                Some(x)
                            },
                            None => {
                                proof {
                                    lemma_umee_query_me_token_reject_metoken_swapfee((entries@[0].key@, entries@[0].val.dv()));
                                }
                                None
                            },
                        }
                    } else if str_eq(key, "metoken_redeemfee") {
                        match WireRecord::from_jval(&entries[0].val) {
                            Some(p) => {
                                let x = UmeeQueryMeToken::MetokenRedeemfee(p);
                                proof {
                                    assert(x.jval()->Obj_0 =~~= v.dv()->Obj_0);
                                    assert(x.jval() =~~= v.dv());
                                }
                                Some(x)
                            },
                            None => {
                                proof {
                                    lemma_umee_query_me_token_reject_metoken_redeemfee((entries@[0].key@, entries@[0].val.dv()));
                                }
                                None
                            },
                        }
                    } else if str_eq(key, "metoken_indexbalances") {
                        match WireRecord::from_jval(&entries[0].val) {
                            Some(p) => {
                                let x = UmeeQueryMeToken::MetokenIndexbalances(p);
                                proof {
                                    assert(x.jval()->Obj_0 =~~= v.dv()->Obj_0);
                                    assert(x.jval() =~~= v.dv());
                                }
                                Some(x)
                            },
                            None => {
                                proof {
                                    lemma_umee_query_me_token_reject_metoken_indexbalances((entries@[0].key@, entries@[0].val.dv()));
                                }
                                None
                            },
                        }
                    } else if str_eq(key, "metoken_index_prices") {
                        match WireRecord::from_jval(&entries[0].val) {
                            Some(p) => {
                                let x = UmeeQueryMeToken::MetokenIndexPrices(p);
                                proof {
                                    assert(x.jval()->Obj_0 =~~= v.dv()->Obj_0);
                                    assert(x.jval() =~~= v.dv());
                                }
                                Some(x)
                            },
                            None => {
                                proof {
                                    lemma_umee_query_me_token_reject_metoken_index_prices((entries@[0].key@, entries@[0].val.dv()));
                                }
                                None
                            },
                        }
                    } else {
                        proof {
                            lemma_umee_query_me_token_reject_other((entries@[0].key@, entries@[0].val.dv()));
                        }
                        None
                    }
                } else {
                    proof {
                        assert forall|x: UmeeQueryMeToken| v.dv() != #[trigger] x.jval() by {
                            lemma_umee_query_me_token_shape(x);
                        }
                    }
                    None
                }
            },
            _ => {
                proof {
                    assert forall|x: UmeeQueryMeToken| v.dv() != #[trigger] x.jval() by {
                        lemma_umee_query_me_token_shape(x);
                    }
                }
                None
            },
        }
    }
}
} // verus!
