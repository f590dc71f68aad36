//! Queries of the incentive module group.
use vstd::prelude::*;

use crate::base::{Coin, Decimal, Decimal256};
use crate::record::WireRecord;
use crate::wire::{json_wf, str_eq, JsonEntry, JsonSpec, JsonVal};

verus! {

broadcast use vstd::string::group_string_axioms;

/// Asks for the incentive module group's parameters.
#[derive(Clone, Debug, PartialEq, Eq)]
pub struct IncentiveParametersParams {
}
impl WireRecord for IncentiveParametersParams {
    open spec fn jval(self) -> JsonSpec {
        JsonSpec::Obj(Seq::empty())
    }

    proof fn jval_wf(self) {
    }

    fn build_jval(&self) -> (r: JsonVal) {
        let r = JsonVal::Obj(Vec::new());
        proof {
            assert(r.dv()->Obj_0 =~~= self.jval()->Obj_0);
            assert(r.dv() =~~= self.jval());
        }
        r
    }

    fn from_jval(v: &JsonVal) -> (r: Option<IncentiveParametersParams>) {
        match v {
            JsonVal::Obj(entries) => {
                if entries.len() == 0 {
                    let x = IncentiveParametersParams {  };
                    proof {
                        assert(x.jval()->Obj_0 =~~= v.dv()->Obj_0);
                        assert(x.jval() =~~= v.dv());
                    }
                    Some(x)
                } else {
                    proof {
                        assert forall|x: IncentiveParametersParams| v.dv() != #[trigger] x.jval() by {
                            assert(x.jval()->Obj_0.len() == 0);
                            assert(v.dv()->Obj_0.len() == entries@.len());
                        }
                    }
                    None
                }
            },
            _ => None,
        }
    }
}
/// Governance parameters of the incentive module group.
#[derive(Clone, Debug, PartialEq, Eq)]
pub struct IncentiveParameters {
    pub max_unbondings: u32,
    pub unbonding_duration: i64,
    pub emergency_unbond_fee: Decimal256,
}
impl WireRecord for IncentiveParameters {
    open spec fn jval(self) -> JsonSpec {
        JsonSpec::Obj(
            seq![
                ("max_unbondings"@, self.max_unbondings.jval()),
                ("unbonding_duration"@, self.unbonding_duration.jval()),
                ("emergency_unbond_fee"@, self.emergency_unbond_fee.jval()),
            ],
        )
    }

    proof fn jval_wf(self) {
        self.max_unbondings.jval_wf();
        self.unbonding_duration.jval_wf();
        self.emergency_unbond_fee.jval_wf();
        assert forall|k: int| 0 <= k < self.jval()->Obj_0.len() implies json_wf(
            #[trigger] self.jval()->Obj_0[k].1,
        ) by {
            if k == 0 {
                assert(json_wf(self.jval()->Obj_0[0].1));
            }
            if k == 1 {
                assert(json_wf(self.jval()->Obj_0[1].1));
            }
            if k == 2 {
                assert(json_wf(self.jval()->Obj_0[2].1));
            }
        }
    }

    fn build_jval(&self) -> (r: JsonVal) {
        let mut entries: Vec<JsonEntry> = Vec::new();
        entries.push(JsonEntry { key: String::from_str("max_unbondings"), val: self.max_unbondings.build_jval() });
        entries.push(JsonEntry { key: String::from_str("unbonding_duration"), val: self.unbonding_duration.build_jval() });
        entries.push(JsonEntry { key: String::from_str("emergency_unbond_fee"), val: self.emergency_unbond_fee.build_jval() });
        let ghost ges = entries@;
        let r = JsonVal::Obj(entries);
        proof {
            let dvs = r.dv()->Obj_0;
            assert(dvs.len() == 3);
            assert(dvs[0] == (ges[0].key@, ges[0].val.dv()));
            assert(dvs[1] == (ges[1].key@, ges[1].val.dv()));
            assert(dvs[2] == (ges[2].key@, ges[2].val.dv()));
            assert(r.dv()->Obj_0 =~~= self.jval()->Obj_0);
            assert(r.dv() =~~= self.jval());
            assert(ges[0].val.wf());
            assert(ges[1].val.wf());
            assert(ges[2].val.wf());
        }
        r
    }

    fn from_jval(v: &JsonVal) -> (r: Option<IncentiveParameters>) {
        match v {
            JsonVal::Obj(entries) => {
                let shape = entries.len() == 3 && str_eq(entries[0].key.as_str(), "max_unbondings") && str_eq(entries[1].key.as_str(), "unbonding_duration") && str_eq(entries[2].key.as_str(), "emergency_unbond_fee");
                proof {
                    let dvs = v.dv()->Obj_0;
                    assert(dvs.len() == entries@.len());
                    if entries@.len() == 3 {
                        assert(dvs[0] == (entries@[0].key@, entries@[0].val.dv()));
                        assert(dvs[1] == (entries@[1].key@, entries@[1].val.dv()));
                        assert(dvs[2] == (entries@[2].key@, entries@[2].val.dv()));
                    }
                }
                if shape {
                    let g0: Option<u32> = WireRecord::from_jval(&entries[0].val);
                    let g1: Option<i64> = WireRecord::from_jval(&entries[1].val);
                    let g2: Option<Decimal256> = WireRecord::from_jval(&entries[2].val);
                    match (g0, g1, g2) {
                        (Some(h0), Some(h1), Some(h2)) => {
                            let x = IncentiveParameters { max_unbondings: h0, unbonding_duration: h1, emergency_unbond_fee: h2 };
                            proof {
                                assert(x.jval()->Obj_0 =~~= v.dv()->Obj_0);
                                assert(x.jval() =~~= v.dv());
                            }
                            Some(x)
                        },
                        _ => {
                            proof {
                                assert forall|x: IncentiveParameters| v.dv() != #[trigger] x.jval() by {
                                    if v.dv() == x.jval() {
                                        assert(v.dv()->Obj_0[0].1 == x.max_unbondings.jval());
                                        assert(v.dv()->Obj_0[1].1 == x.unbonding_duration.jval());
                                        assert(v.dv()->Obj_0[2].1 == x.emergency_unbond_fee.jval());
                                    }
                                }
                            }
                            None
                        },
                    }
                } else {
                    proof {
                        assert forall|x: IncentiveParameters| v.dv() != #[trigger] x.jval() by {
                            if v.dv() == x.jval() {
                                assert(v.dv()->Obj_0.len() == 3);
                                assert(v.dv()->Obj_0[0].0 == "max_unbondings"@);
                                assert(v.dv()->Obj_0[1].0 == "unbonding_duration"@);
                                assert(v.dv()->Obj_0[2].0 == "emergency_unbond_fee"@);
                            }
                        }
                    }
                    None
                }
            },
            _ => None,
        }
    }
}
/// The incentive module group's parameters.
#[derive(Clone, Debug, PartialEq, Eq)]
pub struct IncentiveParametersResponse {
    pub params: IncentiveParameters,
}
impl WireRecord for IncentiveParametersResponse {
    open spec fn jval(self) -> JsonSpec {
        JsonSpec::Obj(
            seq![
                ("params"@, self.params.jval()),
            ],
        )
    }

    proof fn jval_wf(self) {
        self.params.jval_wf();
        assert forall|k: int| 0 <= k < self.jval()->Obj_0.len() implies json_wf(
            #[trigger] self.jval()->Obj_0[k].1,
        ) by {
            if k == 0 {
                assert(json_wf(self.jval()->Obj_0[0].1));
            }
        }
    }

    fn build_jval(&self) -> (r: JsonVal) {
        let mut entries: Vec<JsonEntry> = Vec::new();
        entries.push(JsonEntry { key: String::from_str("params"), val: self.params.build_jval() });
        let ghost ges = entries@;
        let r = JsonVal::Obj(entries);
        proof {
            let dvs = r.dv()->Obj_0;
            assert(dvs.len() == 1);
            assert(dvs[0] == (ges[0].key@, ges[0].val.dv()));
            assert(r.dv()->Obj_0 =~~= self.jval()->Obj_0);
            assert(r.dv() =~~= self.jval());
            assert(ges[0].val.wf());
        }
        r
    }

    fn from_jval(v: &JsonVal) -> (r: Option<IncentiveParametersResponse>) {
        match v {
            JsonVal::Obj(entries) => {
                let shape = entries.len() == 1 && str_eq(entries[0].key.as_str(), "params");
                proof {
                    let dvs = v.dv()->Obj_0;
                    assert(dvs.len() == entries@.len());
                    if entries@.len() == 1 {
                        assert(dvs[0] == (entries@[0].key@, entries@[0].val.dv()));
                    }
                }
                if shape {
                    let g0: Option<IncentiveParameters> = WireRecord::from_jval(&entries[0].val);
                    match (g0) {
                        (Some(h0)) => {
                            let x = IncentiveParametersResponse { params: h0 };
                            proof {
                                assert(x.jval()->Obj_0 =~~= v.dv()->Obj_0);
                                assert(x.jval() =~~= v.dv());
                            }
                            Some(x)
                        },
                        _ => {
                            proof {
                                assert forall|x: IncentiveParametersResponse| v.dv() != #[trigger] x.jval() by {
                                    if v.dv() == x.jval() {
                                        assert(v.dv()->Obj_0[0].1 == x.params.jval());
                                    }
                                }
                            }
                            None
                        },
                    }
                } else {
                    proof {
                        assert forall|x: IncentiveParametersResponse| v.dv() != #[trigger] x.jval() by {
                            if v.dv() == x.jval() {
                                assert(v.dv()->Obj_0.len() == 1);
                                assert(v.dv()->Obj_0[0].0 == "params"@);
                            }
                        }
                    }
                    None
                }
            },
            _ => None,
        }
    }
}
/// Asks for the total bonded amount of one denomination.
#[derive(Clone, Debug, PartialEq, Eq)]
pub struct TotalBondedParams {
    pub denom: String,
}
impl WireRecord for TotalBondedParams {
    open spec fn jval(self) -> JsonSpec {
        JsonSpec::Obj(
            seq![
                ("denom"@, self.denom.jval()),
            ],
        )
    }

    proof fn jval_wf(self) {
        self.denom.jval_wf();
        assert forall|k: int| 0 <= k < self.jval()->Obj_0.len() implies json_wf(
            #[trigger] self.jval()->Obj_0[k].1,
        ) by {
            if k == 0 {
                assert(json_wf(self.jval()->Obj_0[0].1));
            }
        }
    }

    fn build_jval(&self) -> (r: JsonVal) {
        let mut entries: Vec<JsonEntry> = Vec::new();
        entries.push(JsonEntry { key: String::from_str("denom"), val: self.denom.build_jval() });
        let ghost ges = entries@;
        let r = JsonVal::Obj(entries);
        proof {
            let dvs = r.dv()->Obj_0;
            assert(dvs.len() == 1);
            assert(dvs[0] == (ges[0].key@, ges[0].val.dv()));
            assert(r.dv()->Obj_0 =~~= self.jval()->Obj_0);
            assert(r.dv() =~~= self.jval());
            assert(ges[0].val.wf());
        }
        r
    }

    fn from_jval(v: &JsonVal) -> (r: Option<TotalBondedParams>) {
        match v {
            JsonVal::Obj(entries) => {
                let shape = entries.len() == 1 && str_eq(entries[0].key.as_str(), "denom");
                proof {
                    let dvs = v.dv()->Obj_0;
                    assert(dvs.len() == entries@.len());
                    if entries@.len() == 1 {
                        assert(dvs[0] == (entries@[0].key@, entries@[0].val.dv()));
                    }
                }
                if shape {
                    let g0: Option<String> = WireRecord::from_jval(&entries[0].val);
                    match (g0) {
                        (Some(h0)) => {
                            let x = TotalBondedParams { denom: h0 };
                            proof {
                                assert(x.jval()->Obj_0 =~~= v.dv()->Obj_0);
                                assert(x.jval() =~~= v.dv());
                            }
                            Some(x)
                        },
                        _ => {
                            proof {
                                assert forall|x: TotalBondedParams| v.dv() != #[trigger] x.jval() by {
                                    if v.dv() == x.jval() {
                                        assert(v.dv()->Obj_0[0].1 == x.denom.jval());
                                    }
                                }
                            }
                            None
                        },
                    }
                } else {
                    proof {
                        assert forall|x: TotalBondedParams| v.dv() != #[trigger] x.jval() by {
                            if v.dv() == x.jval() {
                                assert(v.dv()->Obj_0.len() == 1);
                                assert(v.dv()->Obj_0[0].0 == "denom"@);
                            }
                        }
                    }
                    None
                }
            },
            _ => None,
        }
    }
}
/// The total bonded amounts.
#[derive(Clone, Debug, PartialEq, Eq)]
pub struct TotalBondedResponse {
    pub bonded: Vec<Coin>,
}
impl WireRecord for TotalBondedResponse {
    open spec fn jval(self) -> JsonSpec {
        JsonSpec::Obj(
            seq![
                ("bonded"@, self.bonded.jval()),
            ],
        )
    }

    proof fn jval_wf(self) {
        self.bonded.jval_wf();
        assert forall|k: int| 0 <= k < self.jval()->Obj_0.len() implies json_wf(
            #[trigger] self.jval()->Obj_0[k].1,
        ) by {
            if k == 0 {
                assert(json_wf(self.jval()->Obj_0[0].1));
            }
        }
    }

    fn build_jval(&self) -> (r: JsonVal) {
        let mut entries: Vec<JsonEntry> = Vec::new();
        entries.push(JsonEntry { key: String::from_str("bonded"), val: self.bonded.build_jval() });
        let ghost ges = entries@;
        let r = JsonVal::Obj(entries);
        proof {
            let dvs = r.dv()->Obj_0;
            assert(dvs.len() == 1);
            assert(dvs[0] == (ges[0].key@, ges[0].val.dv()));
            assert(r.dv()->Obj_0 =~~= self.jval()->Obj_0);
            assert(r.dv() =~~= self.jval());
            assert(ges[0].val.wf());
        }
        r
    }

    fn from_jval(v: &JsonVal) -> (r: Option<TotalBondedResponse>) {
        match v {
            JsonVal::Obj(entries) => {
                let shape = entries.len() == 1 && str_eq(entries[0].key.as_str(), "bonded");
                proof {
                    let dvs = v.dv()->Obj_0;
                    assert(dvs.len() == entries@.len());
                    if entries@.len() == 1 {
                        assert(dvs[0] == (entries@[0].key@, entries@[0].val.dv()));
                    }
                }
                if shape {
                    let g0: Option<Vec<Coin>> = WireRecord::from_jval(&entries[0].val);
                    match (g0) {
                        (Some(h0)) => {
                            let x = TotalBondedResponse { bonded: h0 };
                            proof {
                                assert(x.jval()->Obj_0 =~~= v.dv()->Obj_0);
                                assert(x.jval() =~~= v.dv());
                            }
                            Some(x)
                        },
                        _ => {
                            proof {
                                assert forall|x: TotalBondedResponse| v.dv() != #[trigger] x.jval() by {
                                    if v.dv() == x.jval() {
                                        assert(v.dv()->Obj_0[0].1 == x.bonded.jval());
                                    }
                                }
                            }
                            None
                        },
                    }
                } else {
                    proof {
                        assert forall|x: TotalBondedResponse| v.dv() != #[trigger] x.jval() by {
                            if v.dv() == x.jval() {
                                assert(v.dv()->Obj_0.len() == 1);
                                assert(v.dv()->Obj_0[0].0 == "bonded"@);
                            }
                        }
                    }
                    None
                }
            },
            _ => None,
        }
    }
}
/// Asks for the total unbonding amount of one denomination.
#[derive(Clone, Debug, PartialEq, Eq)]
pub struct TotalUnbondingParams {
    pub denom: String,
}
impl WireRecord for TotalUnbondingParams {
    open spec fn jval(self) -> JsonSpec {
        JsonSpec::Obj(
            seq![
                ("denom"@, self.denom.jval()),
            ],
        )
    }

    proof fn jval_wf(self) {
        self.denom.jval_wf();
        assert forall|k: int| 0 <= k < self.jval()->Obj_0.len() implies json_wf(
            #[trigger] self.jval()->Obj_0[k].1,
        ) by {
            if k == 0 {
                assert(json_wf(self.jval()->Obj_0[0].1));
            }
        }
    }

    fn build_jval(&self) -> (r: JsonVal) {
        let mut entries: Vec<JsonEntry> = Vec::new();
        entries.push(JsonEntry { key: String::from_str("denom"), val: self.denom.build_jval() });
        let ghost ges = entries@;
        let r = JsonVal::Obj(entries);
        proof {
            let dvs = r.dv()->Obj_0;
            assert(dvs.len() == 1);
            assert(dvs[0] == (ges[0].key@, ges[0].val.dv()));
            assert(r.dv()->Obj_0 =~~= self.jval()->Obj_0);
            assert(r.dv() =~~= self.jval());
            assert(ges[0].val.wf());
        }
        r
    }

    fn from_jval(v: &JsonVal) -> (r: Option<TotalUnbondingParams>) {
        match v {
            JsonVal::Obj(entries) => {
                let shape = entries.len() == 1 && str_eq(entries[0].key.as_str(), "denom");
                proof {
                    let dvs = v.dv()->Obj_0;
                    assert(dvs.len() == entries@.len());
                    if entries@.len() == 1 {
                        assert(dvs[0] == (entries@[0].key@, entries@[0].val.dv()));
                    }
                }
                if shape {
                    let g0: Option<String> = WireRecord::from_jval(&entries[0].val);
                    match (g0) {
                        (Some(h0)) => {
                            let x = TotalUnbondingParams { denom: h0 };
                            proof {
                                assert(x.jval()->Obj_0 =~~= v.dv()->Obj_0);
                                assert(x.jval() =~~= v.dv());
                            }
                            Some(x)
                        },
                        _ => {
                            proof {
                                assert forall|x: TotalUnbondingParams| v.dv() != #[trigger] x.jval() by {
                                    if v.dv() == x.jval() {
                                        assert(v.dv()->Obj_0[0].1 == x.denom.jval());
                                    }
                                }
                            }
                            None
                        },
                    }
                } else {
                    proof {
                        assert forall|x: TotalUnbondingParams| v.dv() != #[trigger] x.jval() by {
                            if v.dv() == x.jval() {
                                assert(v.dv()->Obj_0.len() == 1);
                                assert(v.dv()->Obj_0[0].0 == "denom"@);
                            }
                        }
                    }
                    None
                }
            },
            _ => None,
        }
    }
}
/// The total unbonding amounts.
#[derive(Clone, Debug, PartialEq, Eq)]
pub struct TotalUnbondingResponse {
    pub unbonding: Vec<Coin>,
}
impl WireRecord for TotalUnbondingResponse {
    open spec fn jval(self) -> JsonSpec {
        JsonSpec::Obj(
            seq![
                ("unbonding"@, self.unbonding.jval()),
            ],
        )
    }

    proof fn jval_wf(self) {
        self.unbonding.jval_wf();
        assert forall|k: int| 0 <= k < self.jval()->Obj_0.len() implies json_wf(
            #[trigger] self.jval()->Obj_0[k].1,
        ) by {
            if k == 0 {
                assert(json_wf(self.jval()->Obj_0[0].1));
            }
        }
    }

    fn build_jval(&self) -> (r: JsonVal) {
        let mut entries: Vec<JsonEntry> = Vec::new();
        entries.push(JsonEntry { key: String::from_str("unbonding"), val: self.unbonding.build_jval() });
        let ghost ges = entries@;
        let r = JsonVal::Obj(entries);
        proof {
            let dvs = r.dv()->Obj_0;
            assert(dvs.len() == 1);
            assert(dvs[0] == (ges[0].key@, ges[0].val.dv()));
            assert(r.dv()->Obj_0 =~~= self.jval()->Obj_0);
            assert(r.dv() =~~= self.jval());
            assert(ges[0].val.wf());
        }
        r
    }

    fn from_jval(v: &JsonVal) -> (r: Option<TotalUnbondingResponse>) {
        match v {
            JsonVal::Obj(entries) => {
                let shape = entries.len() == 1 && str_eq(entries[0].key.as_str(), "unbonding");
                proof {
                    let dvs = v.dv()->Obj_0;
                    assert(dvs.len() == entries@.len());
                    if entries@.len() == 1 {
                        assert(dvs[0] == (entries@[0].key@, entries@[0].val.dv()));
                    }
                }
                if shape {
                    let g0: Option<Vec<Coin>> = WireRecord::from_jval(&entries[0].val);
                    match (g0) {
                        (Some(h0)) => {
                            let x = TotalUnbondingResponse { unbonding: h0 };
                            proof {
                                assert(x.jval()->Obj_0 =~~= v.dv()->Obj_0);
                                assert(x.jval() =~~= v.dv());
                            }
                            Some(x)
                        },
                        _ => {
                            proof {
                                assert forall|x: TotalUnbondingResponse| v.dv() != #[trigger] x.jval() by {
                                    if v.dv() == x.jval() {
                                        assert(v.dv()->Obj_0[0].1 == x.unbonding.jval());
                                    }
                                }
                            }
                            None
                        },
                    }
                } else {
                    proof {
                        assert forall|x: TotalUnbondingResponse| v.dv() != #[trigger] x.jval() by {
                            if v.dv() == x.jval() {
                                assert(v.dv()->Obj_0.len() == 1);
                                assert(v.dv()->Obj_0[0].0 == "unbonding"@);
                            }
                        }
                    }
                    None
                }
            },
            _ => None,
        }
    }
}
/// Asks for an account's bonds.
#[derive(Clone, Debug, PartialEq, Eq)]
pub struct AccountBondsParams {
    pub address: String,
}
impl WireRecord for AccountBondsParams {
    open spec fn jval(self) -> JsonSpec {
        JsonSpec::Obj(
            seq![
                ("address"@, self.address.jval()),
            ],
        )
    }

    proof fn jval_wf(self) {
        self.address.jval_wf();
        assert forall|k: int| 0 <= k < self.jval()->Obj_0.len() implies json_wf(
            #[trigger] self.jval()->Obj_0[k].1,
        ) by {
            if k == 0 {
                assert(json_wf(self.jval()->Obj_0[0].1));
            }
        }
    }

    fn build_jval(&self) -> (r: JsonVal) {
        let mut entries: Vec<JsonEntry> = Vec::new();
        entries.push(JsonEntry { key: String::from_str("address"), val: self.address.build_jval() });
        let ghost ges = entries@;
        let r = JsonVal::Obj(entries);
        proof {
            let dvs = r.dv()->Obj_0;
            assert(dvs.len() == 1);
            assert(dvs[0] == (ges[0].key@, ges[0].val.dv()));
            assert(r.dv()->Obj_0 =~~= self.jval()->Obj_0);
            assert(r.dv() =~~= self.jval());
            assert(ges[0].val.wf());
        }
        r
    }

    fn from_jval(v: &JsonVal) -> (r: Option<AccountBondsParams>) {
        match v {
            JsonVal::Obj(entries) => {
                let shape = entries.len() == 1 && str_eq(entries[0].key.as_str(), "address");
                proof {
                    let dvs = v.dv()->Obj_0;
                    assert(dvs.len() == entries@.len());
                    if entries@.len() == 1 {
                        assert(dvs[0] == (entries@[0].key@, entries@[0].val.dv()));
                    }
                }
                if shape {
                    let g0: Option<String> = WireRecord::from_jval(&entries[0].val);
                    match (g0) {
                        (Some(h0)) => {
                            let x = AccountBondsParams { address: h0 };
                            proof {
                                assert(x.jval()->Obj_0 =~~= v.dv()->Obj_0);
                                assert(x.jval() =~~= v.dv());
                            }
                            Some(x)
                        },
                        _ => {
                            proof {
                                assert forall|x: AccountBondsParams| v.dv() != #[trigger] x.jval() by {
                                    if v.dv() == x.jval() {
                                        assert(v.dv()->Obj_0[0].1 == x.address.jval());
                                    }
                                }
                            }
                            None
                        },
                    }
                } else {
                    proof {
                        assert forall|x: AccountBondsParams| v.dv() != #[trigger] x.jval() by {
                            if v.dv() == x.jval() {
                                assert(v.dv()->Obj_0.len() == 1);
                                assert(v.dv()->Obj_0[0].0 == "address"@);
                            }
                        }
                    }
                    None
                }
            },
            _ => None,
        }
    }
}
/// One unbonding in progress.
#[derive(Clone, Debug, PartialEq, Eq)]
pub struct Unbonding {
    pub start: i64,
    pub end: i64,
    pub u_token: Coin,
}
impl WireRecord for Unbonding {
    open spec fn jval(self) -> JsonSpec {
        JsonSpec::Obj(
            seq![
                ("start"@, self.start.jval()),
                ("end"@, self.end.jval()),
                ("u_token"@, self.u_token.jval()),
            ],
        )
    }

    proof fn jval_wf(self) {
        self.start.jval_wf();
        self.end.jval_wf();
        self.u_token.jval_wf();
        assert forall|k: int| 0 <= k < self.jval()->Obj_0.len() implies json_wf(
            #[trigger] self.jval()->Obj_0[k].1,
        ) by {
            if k == 0 {
                assert(json_wf(self.jval()->Obj_0[0].1));
            }
            if k == 1 {
                assert(json_wf(self.jval()->Obj_0[1].1));
            }
            if k == 2 {
                assert(json_wf(self.jval()->Obj_0[2].1));
            }
        }
    }

    fn build_jval(&self) -> (r: JsonVal) {
        let mut entries: Vec<JsonEntry> = Vec::new();
        entries.push(JsonEntry { key: String::from_str("start"), val: self.start.build_jval() });
        entries.push(JsonEntry { key: String::from_str("end"), val: self.end.build_jval() });
        entries.push(JsonEntry { key: String::from_str("u_token"), val: self.u_token.build_jval() });
        let ghost ges = entries@;
        let r = JsonVal::Obj(entries);
        proof {
            let dvs = r.dv()->Obj_0;
            assert(dvs.len() == 3);
            assert(dvs[0] == (ges[0].key@, ges[0].val.dv()));
            assert(dvs[1] == (ges[1].key@, ges[1].val.dv()));
            assert(dvs[2] == (ges[2].key@, ges[2].val.dv()));
            assert(r.dv()->Obj_0 =~~= self.jval()->Obj_0);
            assert(r.dv() =~~= self.jval());
            assert(ges[0].val.wf());
            assert(ges[1].val.wf());
            assert(ges[2].val.wf());
        }
        r
    }

    fn from_jval(v: &JsonVal) -> (r: Option<Unbonding>) {
        match v {
            JsonVal::Obj(entries) => {
                let shape = entries.len() == 3 && str_eq(entries[0].key.as_str(), "start") && str_eq(entries[1].key.as_str(), "end") && str_eq(entries[2].key.as_str(), "u_token");
                proof {
                    let dvs = v.dv()->Obj_0;
                    assert(dvs.len() == entries@.len());
                    if entries@.len() == 3 {
                        assert(dvs[0] == (entries@[0].key@, entries@[0].val.dv()));
                        assert(dvs[1] == (entries@[1].key@, entries@[1].val.dv()));
                        assert(dvs[2] == (entries@[2].key@, entries@[2].val.dv()));
                    }
                }
                if shape {
                    let g0: Option<i64> = WireRecord::from_jval(&entries[0].val);
                    let g1: Option<i64> = WireRecord::from_jval(&entries[1].val);
                    let g2: Option<Coin> = WireRecord::from_jval(&entries[2].val);
                    match (g0, g1, g2) {
                        (Some(h0), Some(h1), Some(h2)) => {
                            let x = Unbonding { start: h0, end: h1, u_token: h2 };
                            proof {
                                assert(x.jval()->Obj_0 =~~= v.dv()->Obj_0);
                                assert(x.jval() =~~= v.dv());
                            }
                            Some(x)
                        },
                        _ => {
                            proof {
                                assert forall|x: Unbonding| v.dv() != #[trigger] x.jval() by {
                                    if v.dv() == x.jval() {
                                        assert(v.dv()->Obj_0[0].1 == x.start.jval());
                                        assert(v.dv()->Obj_0[1].1 == x.end.jval());
                                        assert(v.dv()->Obj_0[2].1 == x.u_token.jval());
                                    }
                                }
                            }
                            None
                        },
                    }
                } else {
                    proof {
                        assert forall|x: Unbonding| v.dv() != #[trigger] x.jval() by {
                            if v.dv() == x.jval() {
                                assert(v.dv()->Obj_0.len() == 3);
                                assert(v.dv()->Obj_0[0].0 == "start"@);
                                assert(v.dv()->Obj_0[1].0 == "end"@);
                                assert(v.dv()->Obj_0[2].0 == "u_token"@);
                            }
                        }
                    }
                    None
                }
            },
            _ => None,
        }
    }
}
/// An account's bonded, unbonding and in-progress positions.
#[derive(Clone, Debug, PartialEq, Eq)]
pub struct AccountBondsResponse {
    pub bonded: Vec<Coin>,
    pub unbonding: Vec<Coin>,
    pub unbondings: Vec<Unbonding>,
}
impl WireRecord for AccountBondsResponse {
    open spec fn jval(self) -> JsonSpec {
        JsonSpec::Obj(
            seq![
                ("bonded"@, self.bonded.jval()),
                ("unbonding"@, self.unbonding.jval()),
                ("unbondings"@, self.unbondings.jval()),
            ],
        )
    }

    proof fn jval_wf(self) {
        self.bonded.jval_wf();
        self.unbonding.jval_wf();
        self.unbondings.jval_wf();
        assert forall|k: int| 0 <= k < self.jval()->Obj_0.len() implies json_wf(
            #[trigger] self.jval()->Obj_0[k].1,
        ) by {
            if k == 0 {
                assert(json_wf(self.jval()->Obj_0[0].1));
            }
            if k == 1 {
                assert(json_wf(self.jval()->Obj_0[1].1));
            }
            if k == 2 {
                assert(json_wf(self.jval()->Obj_0[2].1));
            }
        }
    }

    fn build_jval(&self) -> (r: JsonVal) {
        let mut entries: Vec<JsonEntry> = Vec::new();
        entries.push(JsonEntry { key: String::from_str("bonded"), val: self.bonded.build_jval() });
        entries.push(JsonEntry { key: String::from_str("unbonding"), val: self.unbonding.build_jval() });
        entries.push(JsonEntry { key: String::from_str("unbondings"), val: self.unbondings.build_jval() });
        let ghost ges = entries@;
        let r = JsonVal::Obj(entries);
        proof {
            let dvs = r.dv()->Obj_0;
            assert(dvs.len() == 3);
            assert(dvs[0] == (ges[0].key@, ges[0].val.dv()));
            assert(dvs[1] == (ges[1].key@, ges[1].val.dv()));
            assert(dvs[2] == (ges[2].key@, ges[2].val.dv()));
            assert(r.dv()->Obj_0 =~~= self.jval()->Obj_0);
            assert(r.dv() =~~= self.jval());
            assert(ges[0].val.wf());
            assert(ges[1].val.wf());
            assert(ges[2].val.wf());
        }
        r
    }

    fn from_jval(v: &JsonVal) -> (r: Option<AccountBondsResponse>) {
        match v {
            JsonVal::Obj(entries) => {
                let shape = entries.len() == 3 && str_eq(entries[0].key.as_str(), "bonded") && str_eq(entries[1].key.as_str(), "unbonding") && str_eq(entries[2].key.as_str(), "unbondings");
                proof {
                    let dvs = v.dv()->Obj_0;
                    assert(dvs.len() == entries@.len());
                    if entries@.len() == 3 {
                        assert(dvs[0] == (entries@[0].key@, entries@[0].val.dv()));
                        assert(dvs[1] == (entries@[1].key@, entries@[1].val.dv()));
                        assert(dvs[2] == (entries@[2].key@, entries@[2].val.dv()));
                    }
                }
                if shape {
                    let g0: Option<Vec<Coin>> = WireRecord::from_jval(&entries[0].val);
                    let g1: Option<Vec<Coin>> = WireRecord::from_jval(&entries[1].val);
                    let g2: Option<Vec<Unbonding>> = WireRecord::from_jval(&entries[2].val);
                    match (g0, g1, g2) {
                        (Some(h0), Some(h1), Some(h2)) => {
                            let x = AccountBondsResponse { bonded: h0, unbonding: h1, unbondings: h2 };
                            proof {
                                assert(x.jval()->Obj_0 =~~= v.dv()->Obj_0);
                                assert(x.jval() =~~= v.dv());
                            }
                            Some(x)
                        },
                        _ => {
                            proof {
                                assert forall|x: AccountBondsResponse| v.dv() != #[trigger] x.jval() by {
                                    if v.dv() == x.jval() {
                                        assert(v.dv()->Obj_0[0].1 == x.bonded.jval());
                                        assert(v.dv()->Obj_0[1].1 == x.unbonding.jval());
                                        assert(v.dv()->Obj_0[2].1 == x.unbondings.jval());
                                    }
                                }
                            }
                            None
                        },
                    }
                } else {
                    proof {
                        assert forall|x: AccountBondsResponse| v.dv() != #[trigger] x.jval() by {
                            if v.dv() == x.jval() {
                                assert(v.dv()->Obj_0.len() == 3);
                                assert(v.dv()->Obj_0[0].0 == "bonded"@);
                                assert(v.dv()->Obj_0[1].0 == "unbonding"@);
                                assert(v.dv()->Obj_0[2].0 == "unbondings"@);
                            }
                        }
                    }
                    None
                }
            },
            _ => None,
        }
    }
}
/// Asks for an account's pending rewards.
#[derive(Clone, Debug, PartialEq, Eq)]
pub struct PendingRewardsParams {
    pub address: String,
}
impl WireRecord for PendingRewardsParams {
    open spec fn jval(self) -> JsonSpec {
        JsonSpec::Obj(
            seq![
                ("address"@, self.address.jval()),
            ],
        )
    }

    proof fn jval_wf(self) {
        self.address.jval_wf();
        assert forall|k: int| 0 <= k < self.jval()->Obj_0.len() implies json_wf(
            #[trigger] self.jval()->Obj_0[k].1,
        ) by {
            if k == 0 {
                assert(json_wf(self.jval()->Obj_0[0].1));
            }
        }
    }

    fn build_jval(&self) -> (r: JsonVal) {
        let mut entries: Vec<JsonEntry> = Vec::new();
        entries.push(JsonEntry { key: String::from_str("address"), val: self.address.build_jval() });
        let ghost ges = entries@;
        let r = JsonVal::Obj(entries);
        proof {
            let dvs = r.dv()->Obj_0;
            assert(dvs.len() == 1);
            assert(dvs[0] == (ges[0].key@, ges[0].val.dv()));
            assert(r.dv()->Obj_0 =~~= self.jval()->Obj_0);
            assert(r.dv() =~~= self.jval());
            assert(ges[0].val.wf());
        }
        r
    }

    fn from_jval(v: &JsonVal) -> (r: Option<PendingRewardsParams>) {
        match v {
            JsonVal::Obj(entries) => {
                let shape = entries.len() == 1 && str_eq(entries[0].key.as_str(), "address");
                proof {
                    let dvs = v.dv()->Obj_0;
                    assert(dvs.len() == entries@.len());
                    if entries@.len() == 1 {
                        assert(dvs[0] == (entries@[0].key@, entries@[0].val.dv()));
                    }
                }
                if shape {
                    let g0: Option<String> = WireRecord::from_jval(&entries[0].val);
                    match (g0) {
                        (Some(h0)) => {
                            let x = PendingRewardsParams { address: h0 };
                            proof {
                                assert(x.jval()->Obj_0 =~~= v.dv()->Obj_0);
                                assert(x.jval() =~~= v.dv());
                            }
                            Some(x)
                        },
                        _ => {
                            proof {
                                assert forall|x: PendingRewardsParams| v.dv() != #[trigger] x.jval() by {
                                    if v.dv() == x.jval() {
                                        assert(v.dv()->Obj_0[0].1 == x.address.jval());
                                    }
                                }
                            }
                            None
                        },
                    }
                } else {
                    proof {
                        assert forall|x: PendingRewardsParams| v.dv() != #[trigger] x.jval() by {
                            if v.dv() == x.jval() {
                                assert(v.dv()->Obj_0.len() == 1);
                                assert(v.dv()->Obj_0[0].0 == "address"@);
                            }
                        }
                    }
                    None
                }
            },
            _ => None,
        }
    }
}
/// An account's pending rewards.
#[derive(Clone, Debug, PartialEq, Eq)]
pub struct PendingRewardsResponse {
    pub rewards: Vec<Coin>,
}
impl WireRecord for PendingRewardsResponse {
    open spec fn jval(self) -> JsonSpec {
        JsonSpec::Obj(
            seq![
                ("rewards"@, self.rewards.jval()),
            ],
        )
    }

    proof fn jval_wf(self) {
        self.rewards.jval_wf();
        assert forall|k: int| 0 <= k < self.jval()->Obj_0.len() implies json_wf(
            #[trigger] self.jval()->Obj_0[k].1,
        ) by {
            if k == 0 {
                assert(json_wf(self.jval()->Obj_0[0].1));
            }
        }
    }

    fn build_jval(&self) -> (r: JsonVal) {
        let mut entries: Vec<JsonEntry> = Vec::new();
        entries.push(JsonEntry { key: String::from_str("rewards"), val: self.rewards.build_jval() });
        let ghost ges = entries@;
        let r = JsonVal::Obj(entries);
        proof {
            let dvs = r.dv()->Obj_0;
            assert(dvs.len() == 1);
            assert(dvs[0] == (ges[0].key@, ges[0].val.dv()));
            assert(r.dv()->Obj_0 =~~= self.jval()->Obj_0);
            assert(r.dv() =~~= self.jval());
            assert(ges[0].val.wf());
        }
        r
    }

    fn from_jval(v: &JsonVal) -> (r: Option<PendingRewardsResponse>) {
        match v {
            JsonVal::Obj(entries) => {
                let shape = entries.len() == 1 && str_eq(entries[0].key.as_str(), "rewards");
                proof {
                    let dvs = v.dv()->Obj_0;
                    assert(dvs.len() == entries@.len());
                    if entries@.len() == 1 {
                        assert(dvs[0] == (entries@[0].key@, entries@[0].val.dv()));
                    }
                }
                if shape {
                    let g0: Option<Vec<Coin>> = WireRecord::from_jval(&entries[0].val);
                    match (g0) {
                        (Some(h0)) => {
                            let x = PendingRewardsResponse { rewards: h0 };
                            proof {
                                assert(x.jval()->Obj_0 =~~= v.dv()->Obj_0);
                                assert(x.jval() =~~= v.dv());
                            }
                            Some(x)
                        },
                        _ => {
                            proof {
                                assert forall|x: PendingRewardsResponse| v.dv() != #[trigger] x.jval() by {
                                    if v.dv() == x.jval() {
                                        assert(v.dv()->Obj_0[0].1 == x.rewards.jval());
                                    }
                                }
                            }
                            None
                        },
                    }
                } else {
                    proof {
                        assert forall|x: PendingRewardsResponse| v.dv() != #[trigger] x.jval() by {
                            if v.dv() == x.jval() {
                                assert(v.dv()->Obj_0.len() == 1);
                                assert(v.dv()->Obj_0[0].0 == "rewards"@);
                            }
                        }
                    }
                    None
                }
            },
            _ => None,
        }
    }
}
/// Asks for the completed incentive programs.
#[derive(Clone, Debug, PartialEq, Eq)]
pub struct CompletedIncentiveProgramsParams {
}
impl WireRecord for CompletedIncentiveProgramsParams {
    open spec fn jval(self) -> JsonSpec {
        JsonSpec::Obj(Seq::empty())
    }

    proof fn jval_wf(self) {
    }

    fn build_jval(&self) -> (r: JsonVal) {
        let r = JsonVal::Obj(Vec::new());
        proof {
            assert(r.dv()->Obj_0 =~~= self.jval()->Obj_0);
            assert(r.dv() =~~= self.jval());
        }
        r
    }

    fn from_jval(v: &JsonVal) -> (r: Option<CompletedIncentiveProgramsParams>) {
        match v {
            JsonVal::Obj(entries) => {
                if entries.len() == 0 {
                    let x = CompletedIncentiveProgramsParams {  };
                    proof {
                        assert(x.jval()->Obj_0 =~~= v.dv()->Obj_0);
                        assert(x.jval() =~~= v.dv());
                    }
                    Some(x)
                } else {
                    proof {
                        assert forall|x: CompletedIncentiveProgramsParams| v.dv() != #[trigger] x.jval() by {
                            assert(x.jval()->Obj_0.len() == 0);
                            assert(v.dv()->Obj_0.len() == entries@.len());
                        }
                    }
                    None
                }
            },
            _ => None,
        }
    }
}
/// Asks for the ongoing incentive programs.
#[derive(Clone, Debug, PartialEq, Eq)]
pub struct OngoingIncentiveProgramsParams {
}
impl WireRecord for OngoingIncentiveProgramsParams {
    open spec fn jval(self) -> JsonSpec {
        JsonSpec::Obj(Seq::empty())
    }

    proof fn jval_wf(self) {
    }

    fn build_jval(&self) -> (r: JsonVal) {
        let r = JsonVal::Obj(Vec::new());
        proof {
            assert(r.dv()->Obj_0 =~~= self.jval()->Obj_0);
            assert(r.dv() =~~= self.jval());
        }
        r
    }

    fn from_jval(v: &JsonVal) -> (r: Option<OngoingIncentiveProgramsParams>) {
        match v {
            JsonVal::Obj(entries) => {
                if entries.len() == 0 {
                    let x = OngoingIncentiveProgramsParams {  };
                    proof {
                        assert(x.jval()->Obj_0 =~~= v.dv()->Obj_0);
                        assert(x.jval() =~~= v.dv());
                    }
                    Some(x)
                } else {
                    proof {
                        assert forall|x: OngoingIncentiveProgramsParams| v.dv() != #[trigger] x.jval() by {
                            assert(x.jval()->Obj_0.len() == 0);
                            assert(v.dv()->Obj_0.len() == entries@.len());
                        }
                    }
                    None
                }
            },
            _ => None,
        }
    }
}
/// Asks for the upcoming incentive programs.
#[derive(Clone, Debug, PartialEq, Eq)]
pub struct UpcomingIncentiveProgramsParams {
}
impl WireRecord for UpcomingIncentiveProgramsParams {
    open spec fn jval(self) -> JsonSpec {
        JsonSpec::Obj(Seq::empty())
    }

    proof fn jval_wf(self) {
    }

    fn build_jval(&self) -> (r: JsonVal) {
        let r = JsonVal::Obj(Vec::new());
        proof {
            assert(r.dv()->Obj_0 =~~= self.jval()->Obj_0);
            assert(r.dv() =~~= self.jval());
        }
        r
    }

    fn from_jval(v: &JsonVal) -> (r: Option<UpcomingIncentiveProgramsParams>) {
        match v {
            JsonVal::Obj(entries) => {
                if entries.len() == 0 {
                    let x = UpcomingIncentiveProgramsParams {  };
                    proof {
                        assert(x.jval()->Obj_0 =~~= v.dv()->Obj_0);
                        assert(x.jval() =~~= v.dv());
                    }
                    Some(x)
                } else {
                    proof {
                        assert forall|x: UpcomingIncentiveProgramsParams| v.dv() != #[trigger] x.jval() by {
                            assert(x.jval()->Obj_0.len() == 0);
                            assert(v.dv()->Obj_0.len() == entries@.len());
                        }
                    }
                    None
                }
            },
            _ => None,
        }
    }
}
/// Asks for one incentive program by identifier.
#[derive(Clone, Debug, PartialEq, Eq)]
pub struct IncentiveProgramParams {
    pub id: u32,
}
impl WireRecord for IncentiveProgramParams {
    open spec fn jval(self) -> JsonSpec {
        JsonSpec::Obj(
            seq![
                ("id"@, self.id.jval()),
            ],
        )
    }

    proof fn jval_wf(self) {
        self.id.jval_wf();
        assert forall|k: int| 0 <= k < self.jval()->Obj_0.len() implies json_wf(
            #[trigger] self.jval()->Obj_0[k].1,
        ) by {
            if k == 0 {
                assert(json_wf(self.jval()->Obj_0[0].1));
            }
        }
    }

    fn build_jval(&self) -> (r: JsonVal) {
        let mut entries: Vec<JsonEntry> = Vec::new();
        entries.push(JsonEntry { key: String::from_str("id"), val: self.id.build_jval() });
        let ghost ges = entries@;
        let r = JsonVal::Obj(entries);
        proof {
            let dvs = r.dv()->Obj_0;
            assert(dvs.len() == 1);
            assert(dvs[0] == (ges[0].key@, ges[0].val.dv()));
            assert(r.dv()->Obj_0 =~~= self.jval()->Obj_0);
            assert(r.dv() =~~= self.jval());
            assert(ges[0].val.wf());
        }
        r
    }

    fn from_jval(v: &JsonVal) -> (r: Option<IncentiveProgramParams>) {
        match v {
            JsonVal::Obj(entries) => {
                let shape = entries.len() == 1 && str_eq(entries[0].key.as_str(), "id");
                proof {
                    let dvs = v.dv()->Obj_0;
                    assert(dvs.len() == entries@.len());
                    if entries@.len() == 1 {
                        assert(dvs[0] == (entries@[0].key@, entries@[0].val.dv()));
                    }
                }
                if shape {
                    let g0: Option<u32> = WireRecord::from_jval(&entries[0].val);
                    match (g0) {
                        (Some(h0)) => {
                            let x = IncentiveProgramParams { id: h0 };
                            proof {
                                assert(x.jval()->Obj_0 =~~= v.dv()->Obj_0);
                                assert(x.jval() =~~= v.dv());
                            }
                            Some(x)
                        },
                        _ => {
                            proof {
                                assert forall|x: IncentiveProgramParams| v.dv() != #[trigger] x.jval() by {
                                    if v.dv() == x.jval() {
                                        assert(v.dv()->Obj_0[0].1 == x.id.jval());
                                    }
                                }
                            }
                            None
                        },
                    }
                } else {
                    proof {
                        assert forall|x: IncentiveProgramParams| v.dv() != #[trigger] x.jval() by {
                            if v.dv() == x.jval() {
                                assert(v.dv()->Obj_0.len() == 1);
                                assert(v.dv()->Obj_0[0].0 == "id"@);
                            }
                        }
                    }
                    None
                }
            },
            _ => None,
        }
    }
}
/// Asks for the current reward rates of one uToken.
#[derive(Clone, Debug, PartialEq, Eq)]
pub struct CurrentRatesParams {
    pub u_token: String,
}
impl WireRecord for CurrentRatesParams {
    open spec fn jval(self) -> JsonSpec {
        JsonSpec::Obj(
            seq![
                ("u_token"@, self.u_token.jval()),
            ],
        )
    }

    proof fn jval_wf(self) {
        self.u_token.jval_wf();
        assert forall|k: int| 0 <= k < self.jval()->Obj_0.len() implies json_wf(
            #[trigger] self.jval()->Obj_0[k].1,
        ) by {
            if k == 0 {
                assert(json_wf(self.jval()->Obj_0[0].1));
            }
        }
    }

    fn build_jval(&self) -> (r: JsonVal) {
        let mut entries: Vec<JsonEntry> = Vec::new();
        entries.push(JsonEntry { key: String::from_str("u_token"), val: self.u_token.build_jval() });
        let ghost ges = entries@;
        let r = JsonVal::Obj(entries);
        proof {
            let dvs = r.dv()->Obj_0;
            assert(dvs.len() == 1);
            assert(dvs[0] == (ges[0].key@, ges[0].val.dv()));
            assert(r.dv()->Obj_0 =~~= self.jval()->Obj_0);
            assert(r.dv() =~~= self.jval());
            assert(ges[0].val.wf());
        }
        r
    }

    fn from_jval(v: &JsonVal) -> (r: Option<CurrentRatesParams>) {
        match v {
            JsonVal::Obj(entries) => {
                let shape = entries.len() == 1 && str_eq(entries[0].key.as_str(), "u_token");
                proof {
                    let dvs = v.dv()->Obj_0;
                    assert(dvs.len() == entries@.len());
                    if entries@.len() == 1 {
                        assert(dvs[0] == (entries@[0].key@, entries@[0].val.dv()));
                    }
                }
                if shape {
                    let g0: Option<String> = WireRecord::from_jval(&entries[0].val);
                    match (g0) {
                        (Some(h0)) => {
                            let x = CurrentRatesParams { u_token: h0 };
                            proof {
                                assert(x.jval()->Obj_0 =~~= v.dv()->Obj_0);
                                assert(x.jval() =~~= v.dv());
                            }
                            Some(x)
                        },
                        _ => {
                            proof {
                                assert forall|x: CurrentRatesParams| v.dv() != #[trigger] x.jval() by {
                                    if v.dv() == x.jval() {
                                        assert(v.dv()->Obj_0[0].1 == x.u_token.jval());
                                    }
                                }
                            }
                            None
                        },
                    }
                } else {
                    proof {
                        assert forall|x: CurrentRatesParams| v.dv() != #[trigger] x.jval() by {
                            if v.dv() == x.jval() {
                                assert(v.dv()->Obj_0.len() == 1);
                                assert(v.dv()->Obj_0[0].0 == "u_token"@);
                            }
                        }
                    }
                    None
                }
            },
            _ => None,
        }
    }
}
/// The current reward rates of one uToken.
#[derive(Clone, Debug, PartialEq, Eq)]
pub struct CurrentRatesResponse {
    pub reference_bond: Coin,
    pub rewards: Vec<Coin>,
}
impl WireRecord for CurrentRatesResponse {
    open spec fn jval(self) -> JsonSpec {
        JsonSpec::Obj(
            seq![
                ("reference_bond"@, self.reference_bond.jval()),
                ("rewards"@, self.rewards.jval()),
            ],
        )
    }

    proof fn jval_wf(self) {
        self.reference_bond.jval_wf();
        self.rewards.jval_wf();
        assert forall|k: int| 0 <= k < self.jval()->Obj_0.len() implies json_wf(
            #[trigger] self.jval()->Obj_0[k].1,
        ) by {
            if k == 0 {
                assert(json_wf(self.jval()->Obj_0[0].1));
            }
            if k == 1 {
                assert(json_wf(self.jval()->Obj_0[1].1));
            }
        }
    }

    fn build_jval(&self) -> (r: JsonVal) {
        let mut entries: Vec<JsonEntry> = Vec::new();
        entries.push(JsonEntry { key: String::from_str("reference_bond"), val: self.reference_bond.build_jval() });
        entries.push(JsonEntry { key: String::from_str("rewards"), val: self.rewards.build_jval() });
        let ghost ges = entries@;
        let r = JsonVal::Obj(entries);
        proof {
            let dvs = r.dv()->Obj_0;
            assert(dvs.len() == 2);
            assert(dvs[0] == (ges[0].key@, ges[0].val.dv()));
            assert(dvs[1] == (ges[1].key@, ges[1].val.dv()));
            assert(r.dv()->Obj_0 =~~= self.jval()->Obj_0);
            assert(r.dv() =~~= self.jval());
            assert(ges[0].val.wf());
            assert(ges[1].val.wf());
        }
        r
    }

    fn from_jval(v: &JsonVal) -> (r: Option<CurrentRatesResponse>) {
        match v {
            JsonVal::Obj(entries) => {
                let shape = entries.len() == 2 && str_eq(entries[0].key.as_str(), "reference_bond") && str_eq(entries[1].key.as_str(), "rewards");
                proof {
                    let dvs = v.dv()->Obj_0;
                    assert(dvs.len() == entries@.len());
                    if entries@.len() == 2 {
                        assert(dvs[0] == (entries@[0].key@, entries@[0].val.dv()));
                        assert(dvs[1] == (entries@[1].key@, entries@[1].val.dv()));
                    }
                }
                if shape {
                    let g0: Option<Coin> = WireRecord::from_jval(&entries[0].val);
                    let g1: Option<Vec<Coin>> = WireRecord::from_jval(&entries[1].val);
                    match (g0, g1) {
                        (Some(h0), Some(h1)) => {
                            let x = CurrentRatesResponse { reference_bond: h0, rewards: h1 };
                            proof {
                                assert(x.jval()->Obj_0 =~~= v.dv()->Obj_0);
                                assert(x.jval() =~~= v.dv());
                            }
                            Some(x)
                        },
                        _ => {
                            proof {
                                assert forall|x: CurrentRatesResponse| v.dv() != #[trigger] x.jval() by {
                                    if v.dv() == x.jval() {
                                        assert(v.dv()->Obj_0[0].1 == x.reference_bond.jval());
                                        assert(v.dv()->Obj_0[1].1 == x.rewards.jval());
                                    }
                                }
                            }
                            None
                        },
                    }
                } else {
                    proof {
                        assert forall|x: CurrentRatesResponse| v.dv() != #[trigger] x.jval() by {
                            if v.dv() == x.jval() {
                                assert(v.dv()->Obj_0.len() == 2);
                                assert(v.dv()->Obj_0[0].0 == "reference_bond"@);
                                assert(v.dv()->Obj_0[1].0 == "rewards"@);
                            }
                        }
                    }
                    None
                }
            },
            _ => None,
        }
    }
}
/// Asks for the actual annual rate of one uToken.
#[derive(Clone, Debug, PartialEq, Eq)]
pub struct ActualRatesParams {
    pub u_token: String,
}
impl WireRecord for ActualRatesParams {
    open spec fn jval(self) -> JsonSpec {
        JsonSpec::Obj(
            seq![
                ("u_token"@, self.u_token.jval()),
            ],
        )
    }

    proof fn jval_wf(self) {
        self.u_token.jval_wf();
        assert forall|k: int| 0 <= k < self.jval()->Obj_0.len() implies json_wf(
            #[trigger] self.jval()->Obj_0[k].1,
        ) by {
            if k == 0 {
                assert(json_wf(self.jval()->Obj_0[0].1));
            }
        }
    }

    fn build_jval(&self) -> (r: JsonVal) {
        let mut entries: Vec<JsonEntry> = Vec::new();
        entries.push(JsonEntry { key: String::from_str("u_token"), val: self.u_token.build_jval() });
        let ghost ges = entries@;
        let r = JsonVal::Obj(entries);
        proof {
            let dvs = r.dv()->Obj_0;
            assert(dvs.len() == 1);
            assert(dvs[0] == (ges[0].key@, ges[0].val.dv()));
            assert(r.dv()->Obj_0 =~~= self.jval()->Obj_0);
            assert(r.dv() =~~= self.jval());
            assert(ges[0].val.wf());
        }
        r
    }

    fn from_jval(v: &JsonVal) -> (r: Option<ActualRatesParams>) {
        match v {
            JsonVal::Obj(entries) => {
                let shape = entries.len() == 1 && str_eq(entries[0].key.as_str(), "u_token");
                proof {
                    let dvs = v.dv()->Obj_0;
                    assert(dvs.len() == entries@.len());
                    if entries@.len() == 1 {
                        assert(dvs[0] == (entries@[0].key@, entries@[0].val.dv()));
                    }
                }
                if shape {
                    let g0: Option<String> = WireRecord::from_jval(&entries[0].val);
                    match (g0) {
                        (Some(h0)) => {
                            let x = ActualRatesParams { u_token: h0 };
                            proof {
                                assert(x.jval()->Obj_0 =~~= v.dv()->Obj_0);
                                assert(x.jval() =~~= v.dv());
                            }
                            Some(x)
                        },
                        _ => {
                            proof {
                                assert forall|x: ActualRatesParams| v.dv() != #[trigger] x.jval() by {
                                    if v.dv() == x.jval() {
                                        assert(v.dv()->Obj_0[0].1 == x.u_token.jval());
                                    }
                                }
                            }
                            None
                        },
                    }
                } else {
                    proof {
                        assert forall|x: ActualRatesParams| v.dv() != #[trigger] x.jval() by {
                            if v.dv() == x.jval() {
                                assert(v.dv()->Obj_0.len() == 1);
                                assert(v.dv()->Obj_0[0].0 == "u_token"@);
                            }
                        }
                    }
                    None
                }
            },
            _ => None,
        }
    }
}
/// Asks when rewards were last distributed.
#[derive(Clone, Debug, PartialEq, Eq)]
pub struct LastRewardTimeParams {
}
impl WireRecord for LastRewardTimeParams {
    open spec fn jval(self) -> JsonSpec {
        JsonSpec::Obj(Seq::empty())
    }

    proof fn jval_wf(self) {
    }

    fn build_jval(&self) -> (r: JsonVal) {
        let r = JsonVal::Obj(Vec::new());
        proof {
            assert(r.dv()->Obj_0 =~~= self.jval()->Obj_0);
            assert(r.dv() =~~= self.jval());
        }
        r
    }

    fn from_jval(v: &JsonVal) -> (r: Option<LastRewardTimeParams>) {
        match v {
            JsonVal::Obj(entries) => {
                if entries.len() == 0 {
                    let x = LastRewardTimeParams {  };
                    proof {
                        assert(x.jval()->Obj_0 =~~= v.dv()->Obj_0);
                        assert(x.jval() =~~= v.dv());
                    }
                    Some(x)
                } else {
                    proof {
                        assert forall|x: LastRewardTimeParams| v.dv() != #[trigger] x.jval() by {
                            assert(x.jval()->Obj_0.len() == 0);
                            assert(v.dv()->Obj_0.len() == entries@.len());
                        }
                    }
                    None
                }
            },
            _ => None,
        }
    }
}
/// When rewards were last distributed.
#[derive(Clone, Debug, PartialEq, Eq)]
pub struct LastRewardTimeResponse {
    pub time: i64,
}
impl WireRecord for LastRewardTimeResponse {
    open spec fn jval(self) -> JsonSpec {
        JsonSpec::Obj(
            seq![
                ("time"@, self.time.jval()),
            ],
        )
    }

    proof fn jval_wf(self) {
        self.time.jval_wf();
        assert forall|k: int| 0 <= k < self.jval()->Obj_0.len() implies json_wf(
            #[trigger] self.jval()->Obj_0[k].1,
        ) by {
            if k == 0 {
                assert(json_wf(self.jval()->Obj_0[0].1));
            }
        }
    }

    fn build_jval(&self) -> (r: JsonVal) {
        let mut entries: Vec<JsonEntry> = Vec::new();
        entries.push(JsonEntry { key: String::from_str("time"), val: self.time.build_jval() });
        let ghost ges = entries@;
        let r = JsonVal::Obj(entries);
        proof {
            let dvs = r.dv()->Obj_0;
            assert(dvs.len() == 1);
            assert(dvs[0] == (ges[0].key@, ges[0].val.dv()));
            assert(r.dv()->Obj_0 =~~= self.jval()->Obj_0);
            assert(r.dv() =~~= self.jval());
            assert(ges[0].val.wf());
        }
        r
    }

    fn from_jval(v: &JsonVal) -> (r: Option<LastRewardTimeResponse>) {
        match v {
            JsonVal::Obj(entries) => {
                let shape = entries.len() == 1 && str_eq(entries[0].key.as_str(), "time");
                proof {
                    let dvs = v.dv()->Obj_0;
                    assert(dvs.len() == entries@.len());
                    if entries@.len() == 1 {
                        assert(dvs[0] == (entries@[0].key@, entries@[0].val.dv()));
                    }
                }
                if shape {
                    let g0: Option<i64> = WireRecord::from_jval(&entries[0].val);
                    match (g0) {
                        (Some(h0)) => {
                            let x = LastRewardTimeResponse { time: h0 };
                            proof {
                                assert(x.jval()->Obj_0 =~~= v.dv()->Obj_0);
                                assert(x.jval() =~~= v.dv());
                            }
                            Some(x)
                        },
                        _ => {
                            proof {
                                assert forall|x: LastRewardTimeResponse| v.dv() != #[trigger] x.jval() by {
                                    if v.dv() == x.jval() {
                                        assert(v.dv()->Obj_0[0].1 == x.time.jval());
                                    }
                                }
                            }
                            None
                        },
                    }
                } else {
                    proof {
                        assert forall|x: LastRewardTimeResponse| v.dv() != #[trigger] x.jval() by {
                            if v.dv() == x.jval() {
                                assert(v.dv()->Obj_0.len() == 1);
                                assert(v.dv()->Obj_0[0].0 == "time"@);
                            }
                        }
                    }
                    None
                }
            },
            _ => None,
        }
    }
}
/// The actual annual rate of one uToken.
#[derive(Clone, Debug, PartialEq, Eq)]
#[allow(non_snake_case)]
pub struct ActualRatesResponse {
    pub APY: Decimal,
}

impl WireRecord for ActualRatesResponse {
    open spec fn jval(self) -> JsonSpec {
        JsonSpec::Obj(
            seq![
                ("APY"@, self.APY.jval()),
            ],
        )
    }

    proof fn jval_wf(self) {
        self.APY.jval_wf();
        assert forall|k: int| 0 <= k < self.jval()->Obj_0.len() implies json_wf(
            #[trigger] self.jval()->Obj_0[k].1,
        ) by {
            if k == 0 {
                assert(json_wf(self.jval()->Obj_0[0].1));
            }
        }
    }

    fn build_jval(&self) -> (r: JsonVal) {
        let mut entries: Vec<JsonEntry> = Vec::new();
        entries.push(JsonEntry { key: String::from_str("APY"), val: self.APY.build_jval() });
        let ghost ges = entries@;
        let r = JsonVal::Obj(entries);
        proof {
            let dvs = r.dv()->Obj_0;
            assert(dvs.len() == 1);
            assert(dvs[0] == (ges[0].key@, ges[0].val.dv()));
            assert(r.dv()->Obj_0 =~~= self.jval()->Obj_0);
            assert(r.dv() =~~= self.jval());
            assert(ges[0].val.wf());
        }
        r
    }

    fn from_jval(v: &JsonVal) -> (r: Option<ActualRatesResponse>) {
        match v {
            JsonVal::Obj(entries) => {
                let shape = entries.len() == 1 && str_eq(entries[0].key.as_str(), "APY");
                proof {
                    let dvs = v.dv()->Obj_0;
                    assert(dvs.len() == entries@.len());
                    if entries@.len() == 1 {
                        assert(dvs[0] == (entries@[0].key@, entries@[0].val.dv()));
                    }
                }
                if shape {
                    let g0: Option<Decimal> = WireRecord::from_jval(&entries[0].val);
                    match (g0) {
                        (Some(h0)) => {
                            let x = ActualRatesResponse { APY: h0 };
                            proof {
                                assert(x.jval()->Obj_0 =~~= v.dv()->Obj_0);
                                assert(x.jval() =~~= v.dv());
                            }
                            Some(x)
                        },
                        _ => {
                            proof {
                                assert forall|x: ActualRatesResponse| v.dv() != #[trigger] x.jval() by {
                                    if v.dv() == x.jval() {
                                        assert(v.dv()->Obj_0[0].1 == x.APY.jval());
                                    }
                                }
                            }
                            None
                        },
                    }
                } else {
                    proof {
                        assert forall|x: ActualRatesResponse| v.dv() != #[trigger] x.jval() by {
                            if v.dv() == x.jval() {
                                assert(v.dv()->Obj_0.len() == 1);
                                assert(v.dv()->Obj_0[0].0 == "APY"@);
                            }
                        }
                    }
                    None
                }
            },
            _ => None,
        }
    }
}
/// One incentive program and its funding state.
#[derive(Clone, Debug, PartialEq, Eq)]
#[allow(non_snake_case)]
pub struct IncentiveProgram {
    pub ID: u32,
    pub start_time: i64,
    pub duration: i64,
    pub u_token: String,
    pub funded: bool,
    pub total_rewards: Coin,
    pub remaining_rewards: Coin,
}

impl WireRecord for IncentiveProgram {
    open spec fn jval(self) -> JsonSpec {
        JsonSpec::Obj(
            seq![
                ("ID"@, self.ID.jval()),
                ("start_time"@, self.start_time.jval()),
                ("duration"@, self.duration.jval()),
                ("u_token"@, self.u_token.jval()),
                ("funded"@, self.funded.jval()),
                ("total_rewards"@, self.total_rewards.jval()),
                ("remaining_rewards"@, self.remaining_rewards.jval()),
            ],
        )
    }

    proof fn jval_wf(self) {
        self.ID.jval_wf();
        self.start_time.jval_wf();
        self.duration.jval_wf();
        self.u_token.jval_wf();
        self.funded.jval_wf();
        self.total_rewards.jval_wf();
        self.remaining_rewards.jval_wf();
        assert forall|k: int| 0 <= k < self.jval()->Obj_0.len() implies json_wf(
            #[trigger] self.jval()->Obj_0[k].1,
        ) by {
            if k == 0 {
                assert(json_wf(self.jval()->Obj_0[0].1));
            }
            if k == 1 {
                assert(json_wf(self.jval()->Obj_0[1].1));
            }
            if k == 2 {
                assert(json_wf(self.jval()->Obj_0[2].1));
            }
            if k == 3 {
                assert(json_wf(self.jval()->Obj_0[3].1));
            }
            if k == 4 {
                assert(json_wf(self.jval()->Obj_0[4].1));
            }
            if k == 5 {
                assert(json_wf(self.jval()->Obj_0[5].1));
            }
            if k == 6 {
                assert(json_wf(self.jval()->Obj_0[6].1));
            }
        }
    }

    fn build_jval(&self) -> (r: JsonVal) {
        let mut entries: Vec<JsonEntry> = Vec::new();
        entries.push(JsonEntry { key: String::from_str("ID"), val: self.ID.build_jval() });
        entries.push(JsonEntry { key: String::from_str("start_time"), val: self.start_time.build_jval() });
        entries.push(JsonEntry { key: String::from_str("duration"), val: self.duration.build_jval() });
        entries.push(JsonEntry { key: String::from_str("u_token"), val: self.u_token.build_jval() });
        entries.push(JsonEntry { key: String::from_str("funded"), val: self.funded.build_jval() });
        entries.push(JsonEntry { key: String::from_str("total_rewards"), val: self.total_rewards.build_jval() });
        entries.push(JsonEntry { key: String::from_str("remaining_rewards"), val: self.remaining_rewards.build_jval() });
        let ghost ges = entries@;
        let r = JsonVal::Obj(entries);
        proof {
            let dvs = r.dv()->Obj_0;
            assert(dvs.len() == 7);
            assert(dvs[0] == (ges[0].key@, ges[0].val.dv()));
            assert(dvs[1] == (ges[1].key@, ges[1].val.dv()));
            assert(dvs[2] == (ges[2].key@, ges[2].val.dv()));
            assert(dvs[3] == (ges[3].key@, ges[3].val.dv()));
            assert(dvs[4] == (ges[4].key@, ges[4].val.dv()));
            assert(dvs[5] == (ges[5].key@, ges[5].val.dv()));
            assert(dvs[6] == (ges[6].key@, ges[6].val.dv()));
            assert(r.dv()->Obj_0 =~~= self.jval()->Obj_0);
            assert(r.dv() =~~= self.jval());
            assert(ges[0].val.wf());
            assert(ges[1].val.wf());
            assert(ges[2].val.wf());
            assert(ges[3].val.wf());
            assert(ges[4].val.wf());
            assert(ges[5].val.wf());
            assert(ges[6].val.wf());
        }
        r
    }

    fn from_jval(v: &JsonVal) -> (r: Option<IncentiveProgram>) {
        match v {
            JsonVal::Obj(entries) => {
                let shape = entries.len() == 7 && str_eq(entries[0].key.as_str(), "ID") && str_eq(entries[1].key.as_str(), "start_time") && str_eq(entries[2].key.as_str(), "duration") && str_eq(entries[3].key.as_str(), "u_token") && str_eq(entries[4].key.as_str(), "funded") && str_eq(entries[5].key.as_str(), "total_rewards") && str_eq(entries[6].key.as_str(), "remaining_rewards");
                proof {
                    let dvs = v.dv()->Obj_0;
                    assert(dvs.len() == entries@.len());
                    if entries@.len() == 7 {
                        assert(dvs[0] == (entries@[0].key@, entries@[0].val.dv()));
                        assert(dvs[1] == (entries@[1].key@, entries@[1].val.dv()));
                        assert(dvs[2] == (entries@[2].key@, entries@[2].val.dv()));
                        assert(dvs[3] == (entries@[3].key@, entries@[3].val.dv()));
                        assert(dvs[4] == (entries@[4].key@, entries@[4].val.dv()));
                        assert(dvs[5] == (entries@[5].key@, entries@[5].val.dv()));
                        assert(dvs[6] == (entries@[6].key@, entries@[6].val.dv()));
                    }
                }
                if shape {
                    let g0: Option<u32> = WireRecord::from_jval(&entries[0].val);
                    let g1: Option<i64> = WireRecord::from_jval(&entries[1].val);
                    let g2: Option<i64> = WireRecord::from_jval(&entries[2].val);
                    let g3: Option<String> = WireRecord::from_jval(&entries[3].val);
                    let g4: Option<bool> = WireRecord::from_jval(&entries[4].val);
                    let g5: Option<Coin> = WireRecord::from_jval(&entries[5].val);
                    let g6: Option<Coin> = WireRecord::from_jval(&entries[6].val);
                    match (g0, g1, g2, g3, g4, g5, g6) {
                        (Some(h0), Some(h1), Some(h2), Some(h3), Some(h4), Some(h5), Some(h6)) => {
                            let x = IncentiveProgram { ID: h0, start_time: h1, duration: h2, u_token: h3, funded: h4, total_rewards: h5, remaining_rewards: h6 };
                            proof {
                                assert(x.jval()->Obj_0 =~~= v.dv()->Obj_0);
                                assert(x.jval() =~~= v.dv());
                            }
                            Some(x)
                        },
                        _ => {
                            proof {
                                assert forall|x: IncentiveProgram| v.dv() != #[trigger] x.jval() by {
                                    if v.dv() == x.jval() {
                                        assert(v.dv()->Obj_0[0].1 == x.ID.jval());
                                        assert(v.dv()->Obj_0[1].1 == x.start_time.jval());
                                        assert(v.dv()->Obj_0[2].1 == x.duration.jval());
                                        assert(v.dv()->Obj_0[3].1 == x.u_token.jval());
                                        assert(v.dv()->Obj_0[4].1 == x.funded.jval());
                                        assert(v.dv()->Obj_0[5].1 == x.total_rewards.jval());
                                        assert(v.dv()->Obj_0[6].1 == x.remaining_rewards.jval());
                                    }
                                }
                            }
                            None
                        },
                    }
                } else {
                    proof {
                        assert forall|x: IncentiveProgram| v.dv() != #[trigger] x.jval() by {
                            if v.dv() == x.jval() {
                                assert(v.dv()->Obj_0.len() == 7);
                                assert(v.dv()->Obj_0[0].0 == "ID"@);
                                assert(v.dv()->Obj_0[1].0 == "start_time"@);
                                assert(v.dv()->Obj_0[2].0 == "duration"@);
                                assert(v.dv()->Obj_0[3].0 == "u_token"@);
                                assert(v.dv()->Obj_0[4].0 == "funded"@);
                                assert(v.dv()->Obj_0[5].0 == "total_rewards"@);
                                assert(v.dv()->Obj_0[6].0 == "remaining_rewards"@);
                            }
                        }
                    }
                    None
                }
            },
            _ => None,
        }
    }
}
/// One incentive program.
#[derive(Clone, Debug, PartialEq, Eq)]
pub struct IncentiveProgramResponse {
    pub program: IncentiveProgram,
}
impl WireRecord for IncentiveProgramResponse {
    open spec fn jval(self) -> JsonSpec {
        JsonSpec::Obj(
            seq![
                ("program"@, self.program.jval()),
            ],
        )
    }

    proof fn jval_wf(self) {
        self.program.jval_wf();
        assert forall|k: int| 0 <= k < self.jval()->Obj_0.len() implies json_wf(
            #[trigger] self.jval()->Obj_0[k].1,
        ) by {
            if k == 0 {
                assert(json_wf(self.jval()->Obj_0[0].1));
            }
        }
    }

    fn build_jval(&self) -> (r: JsonVal) {
        let mut entries: Vec<JsonEntry> = Vec::new();
        entries.push(JsonEntry { key: String::from_str("program"), val: self.program.build_jval() });
        let ghost ges = entries@;
        let r = JsonVal::Obj(entries);
        proof {
            let dvs = r.dv()->Obj_0;
            assert(dvs.len() == 1);
            assert(dvs[0] == (ges[0].key@, ges[0].val.dv()));
            assert(r.dv()->Obj_0 =~~= self.jval()->Obj_0);
            assert(r.dv() =~~= self.jval());
            assert(ges[0].val.wf());
        }
        r
    }

    fn from_jval(v: &JsonVal) -> (r: Option<IncentiveProgramResponse>) {
        match v {
            JsonVal::Obj(entries) => {
                let shape = entries.len() == 1 && str_eq(entries[0].key.as_str(), "program");
                proof {
                    let dvs = v.dv()->Obj_0;
                    assert(dvs.len() == entries@.len());
                    if entries@.len() == 1 {
                        assert(dvs[0] == (entries@[0].key@, entries@[0].val.dv()));
                    }
                }
                if shape {
                    let g0: Option<IncentiveProgram> = WireRecord::from_jval(&entries[0].val);
                    match (g0) {
                        (Some(h0)) => {
                            let x = IncentiveProgramResponse { program: h0 };
                            proof {
                                assert(x.jval()->Obj_0 =~~= v.dv()->Obj_0);
                                assert(x.jval() =~~= v.dv());
                            }
                            Some(x)
                        },
                        _ => {
                            proof {
                                assert forall|x: IncentiveProgramResponse| v.dv() != #[trigger] x.jval() by {
                                    if v.dv() == x.jval() {
                                        assert(v.dv()->Obj_0[0].1 == x.program.jval());
                                    }
                                }
                            }
                            None
                        },
                    }
                } else {
                    proof {
                        assert forall|x: IncentiveProgramResponse| v.dv() != #[trigger] x.jval() by {
                            if v.dv() == x.jval() {
                                assert(v.dv()->Obj_0.len() == 1);
                                assert(v.dv()->Obj_0[0].0 == "program"@);
                            }
                        }
                    }
                    None
                }
            },
            _ => None,
        }
    }
}
/// The completed incentive programs.
#[derive(Clone, Debug, PartialEq, Eq)]
pub struct CompletedIncentiveProgramsResponse {
    pub programs: Vec<IncentiveProgram>,
}
impl WireRecord for CompletedIncentiveProgramsResponse {
    open spec fn jval(self) -> JsonSpec {
        JsonSpec::Obj(
            seq![
                ("programs"@, self.programs.jval()),
            ],
        )
    }

    proof fn jval_wf(self) {
        self.programs.jval_wf();
        assert forall|k: int| 0 <= k < self.jval()->Obj_0.len() implies json_wf(
            #[trigger] self.jval()->Obj_0[k].1,
        ) by {
            if k == 0 {
                assert(json_wf(self.jval()->Obj_0[0].1));
            }
        }
    }

    fn build_jval(&self) -> (r: JsonVal) {
        let mut entries: Vec<JsonEntry> = Vec::new();
        entries.push(JsonEntry { key: String::from_str("programs"), val: self.programs.build_jval() });
        let ghost ges = entries@;
        let r = JsonVal::Obj(entries);
        proof {
            let dvs = r.dv()->Obj_0;
            assert(dvs.len() == 1);
            assert(dvs[0] == (ges[0].key@, ges[0].val.dv()));
            assert(r.dv()->Obj_0 =~~= self.jval()->Obj_0);
            assert(r.dv() =~~= self.jval());
            assert(ges[0].val.wf());
        }
        r
    }

    fn from_jval(v: &JsonVal) -> (r: Option<CompletedIncentiveProgramsResponse>) {
        match v {
            JsonVal::Obj(entries) => {
                let shape = entries.len() == 1 && str_eq(entries[0].key.as_str(), "programs");
                proof {
                    let dvs = v.dv()->Obj_0;
                    assert(dvs.len() == entries@.len());
                    if entries@.len() == 1 {
                        assert(dvs[0] == (entries@[0].key@, entries@[0].val.dv()));
                    }
                }
                if shape {
                    let g0: Option<Vec<IncentiveProgram>> = WireRecord::from_jval(&entries[0].val);
                    match (g0) {
                        (Some(h0)) => {
                            let x = CompletedIncentiveProgramsResponse { programs: h0 };
                            proof {
                                assert(x.jval()->Obj_0 =~~= v.dv()->Obj_0);
                                assert(x.jval() =~~= v.dv());
                            }
                            Some(x)
                        },
                        _ => {
                            proof {
                                assert forall|x: CompletedIncentiveProgramsResponse| v.dv() != #[trigger] x.jval() by {
                                    if v.dv() == x.jval() {
                                        assert(v.dv()->Obj_0[0].1 == x.programs.jval());
                                    }
                                }
                            }
                            None
                        },
                    }
                } else {
                    proof {
                        assert forall|x: CompletedIncentiveProgramsResponse| v.dv() != #[trigger] x.jval() by {
                            if v.dv() == x.jval() {
                                assert(v.dv()->Obj_0.len() == 1);
                                assert(v.dv()->Obj_0[0].0 == "programs"@);
                            }
                        }
                    }
                    None
                }
            },
            _ => None,
        }
    }
}
/// The ongoing incentive programs.
#[derive(Clone, Debug, PartialEq, Eq)]
pub struct OngoingIncentiveProgramsResponse {
    pub programs: Vec<IncentiveProgram>,
}
impl WireRecord for OngoingIncentiveProgramsResponse {
    open spec fn jval(self) -> JsonSpec {
        JsonSpec::Obj(
            seq![
                ("programs"@, self.programs.jval()),
            ],
        )
    }

    proof fn jval_wf(self) {
        self.programs.jval_wf();
        assert forall|k: int| 0 <= k < self.jval()->Obj_0.len() implies json_wf(
            #[trigger] self.jval()->Obj_0[k].1,
        ) by {
            if k == 0 {
                assert(json_wf(self.jval()->Obj_0[0].1));
            }
        }
    }

    fn build_jval(&self) -> (r: JsonVal) {
        let mut entries: Vec<JsonEntry> = Vec::new();
        entries.push(JsonEntry { key: String::from_str("programs"), val: self.programs.build_jval() });
        let ghost ges = entries@;
        let r = JsonVal::Obj(entries);
        proof {
            let dvs = r.dv()->Obj_0;
            assert(dvs.len() == 1);
            assert(dvs[0] == (ges[0].key@, ges[0].val.dv()));
            assert(r.dv()->Obj_0 =~~= self.jval()->Obj_0);
            assert(r.dv() =~~= self.jval());
            assert(ges[0].val.wf());
        }
        r
    }

    fn from_jval(v: &JsonVal) -> (r: Option<OngoingIncentiveProgramsResponse>) {
        match v {
            JsonVal::Obj(entries) => {
                let shape = entries.len() == 1 && str_eq(entries[0].key.as_str(), "programs");
                proof {
                    let dvs = v.dv()->Obj_0;
                    assert(dvs.len() == entries@.len());
                    if entries@.len() == 1 {
                        assert(dvs[0] == (entries@[0].key@, entries@[0].val.dv()));
                    }
                }
                if shape {
                    let g0: Option<Vec<IncentiveProgram>> = WireRecord::from_jval(&entries[0].val);
                    match (g0) {
                        (Some(h0)) => {
                            let x = OngoingIncentiveProgramsResponse { programs: h0 };
                            proof {
                                assert(x.jval()->Obj_0 =~~= v.dv()->Obj_0);
                                assert(x.jval() =~~= v.dv());
                            }
                            Some(x)
                        },
                        _ => {
                            proof {
                                assert forall|x: OngoingIncentiveProgramsResponse| v.dv() != #[trigger] x.jval() by {
                                    if v.dv() == x.jval() {
                                        assert(v.dv()->Obj_0[0].1 == x.programs.jval());
                                    }
                                }
                            }
                            None
                        },
                    }
                } else {
                    proof {
                        assert forall|x: OngoingIncentiveProgramsResponse| v.dv() != #[trigger] x.jval() by {
                            if v.dv() == x.jval() {
                                assert(v.dv()->Obj_0.len() == 1);
                                assert(v.dv()->Obj_0[0].0 == "programs"@);
                            }
                        }
                    }
                    None
                }
            },
            _ => None,
        }
    }
}
/// The upcoming incentive programs.
#[derive(Clone, Debug, PartialEq, Eq)]
pub struct UpcomingIncentiveProgramsResponse {
    pub programs: Vec<IncentiveProgram>,
}
impl WireRecord for UpcomingIncentiveProgramsResponse {
    open spec fn jval(self) -> JsonSpec {
        JsonSpec::Obj(
            seq![
                ("programs"@, self.programs.jval()),
            ],
        )
    }

    proof fn jval_wf(self) {
        self.programs.jval_wf();
        assert forall|k: int| 0 <= k < self.jval()->Obj_0.len() implies json_wf(
            #[trigger] self.jval()->Obj_0[k].1,
        ) by {
            if k == 0 {
                assert(json_wf(self.jval()->Obj_0[0].1));
            }
        }
    }

    fn build_jval(&self) -> (r: JsonVal) {
        let mut entries: Vec<JsonEntry> = Vec::new();
        entries.push(JsonEntry { key: String::from_str("programs"), val: self.programs.build_jval() });
        let ghost ges = entries@;
        let r = JsonVal::Obj(entries);
        proof {
            let dvs = r.dv()->Obj_0;
            assert(dvs.len() == 1);
            assert(dvs[0] == (ges[0].key@, ges[0].val.dv()));
            assert(r.dv()->Obj_0 =~~= self.jval()->Obj_0);
            assert(r.dv() =~~= self.jval());
            assert(ges[0].val.wf());
        }
        r
    }

    fn from_jval(v: &JsonVal) -> (r: Option<UpcomingIncentiveProgramsResponse>) {
        match v {
            JsonVal::Obj(entries) => {
                let shape = entries.len() == 1 && str_eq(entries[0].key.as_str(), "programs");
                proof {
                    let dvs = v.dv()->Obj_0;
                    assert(dvs.len() == entries@.len());
                    if entries@.len() == 1 {
                        assert(dvs[0] == (entries@[0].key@, entries@[0].val.dv()));
                    }
                }
                if shape {
                    let g0: Option<Vec<IncentiveProgram>> = WireRecord::from_jval(&entries[0].val);
                    match (g0) {
                        (Some(h0)) => {
                            let x = UpcomingIncentiveProgramsResponse { programs: h0 };
                            proof {
                                assert(x.jval()->Obj_0 =~~= v.dv()->Obj_0);
                                assert(x.jval() =~~= v.dv());
                            }
                            Some(x)
                        },
                        _ => {
                            proof {
                                assert forall|x: UpcomingIncentiveProgramsResponse| v.dv() != #[trigger] x.jval() by {
                                    if v.dv() == x.jval() {
                                        assert(v.dv()->Obj_0[0].1 == x.programs.jval());
                                    }
                                }
                            }
                            None
                        },
                    }
                } else {
                    proof {
                        assert forall|x: UpcomingIncentiveProgramsResponse| v.dv() != #[trigger] x.jval() by {
                            if v.dv() == x.jval() {
                                assert(v.dv()->Obj_0.len() == 1);
                                assert(v.dv()->Obj_0[0].0 == "programs"@);
                            }
                        }
                    }
                    None
                }
            },
            _ => None,
        }
    }
}
/// Every query the incentive module group answers, tagged by kind.
#[derive(Clone, Debug, PartialEq, Eq)]
pub enum UmeeQueryIncentive {
    IncentiveParameters(IncentiveParametersParams),
    TotalBonded(TotalBondedParams),
    TotalUnbonding(TotalUnbondingParams),
    AccountBonds(AccountBondsParams),
    PendingRewards(PendingRewardsParams),
    CompletedIncentivePrograms(CompletedIncentiveProgramsParams),
    OngoingIncentivePrograms(OngoingIncentiveProgramsParams),
    UpcomingIncentivePrograms(UpcomingIncentiveProgramsParams),
    IncentiveProgram(IncentiveProgramParams),
    CurrentRates(CurrentRatesParams),
    ActualRates(ActualRatesParams),
    LastRewardTime(LastRewardTimeParams),
}
/// Length and distinguishing characters of every variant key of the
/// wire shape.
proof fn lemma_umee_query_incentive_keys()
    ensures
        "incentive_parameters"@.len() == 20,
        "total_bonded"@.len() == 12,
        "total_unbonding"@.len() == 15,
        "account_bonds"@.len() == 13,
        "pending_rewards"@.len() == 15,
        "completed_incentive_programs"@.len() == 28,
        "ongoing_incentive_programs"@.len() == 26,
        "upcoming_incentive_programs"@.len() == 27,
        "incentive_program"@.len() == 17,
        "current_rates"@.len() == 13,
        "actual_rates"@.len() == 12,
        "last_reward_time"@.len() == 16,
        "account_bonds"@[0] == 'a',
        "actual_rates"@[0] == 'a',
        "completed_incentive_programs"@[0] == 'c',
        "current_rates"@[0] == 'c',
        "incentive_parameters"@[0] == 'i',
        "incentive_program"@[0] == 'i',
        "last_reward_time"@[0] == 'l',
        "ongoing_incentive_programs"@[0] == 'o',
        "pending_rewards"@[0] == 'p',
        "total_bonded"@[0] == 't',
        "total_unbonding"@[0] == 't',
        "upcoming_incentive_programs"@[0] == 'u',
{
    reveal_strlit("incentive_parameters");
    assert("incentive_parameters"@ =~= seq!['i', 'n', 'c', 'e', 'n', 't', 'i', 'v', 'e', '_', 'p', 'a', 'r', 'a', 'm', 'e', 't', 'e', 'r', 's']);
    reveal_strlit("total_bonded");
    assert("total_bonded"@ =~= seq!['t', 'o', 't', 'a', 'l', '_', 'b', 'o', 'n', 'd', 'e', 'd']);
    reveal_strlit("total_unbonding");
    assert("total_unbonding"@ =~= seq!['t', 'o', 't', 'a', 'l', '_', 'u', 'n', 'b', 'o', 'n', 'd', 'i', 'n', 'g']);
    reveal_strlit("account_bonds");
    assert("account_bonds"@ =~= seq!['a', 'c', 'c', 'o', 'u', 'n', 't', '_', 'b', 'o', 'n', 'd', 's']);
    reveal_strlit("pending_rewards");
    assert("pending_rewards"@ =~= seq!['p', 'e', 'n', 'd', 'i', 'n', 'g', '_', 'r', 'e', 'w', 'a', 'r', 'd', 's']);
    reveal_strlit("completed_incentive_programs");
    assert("completed_incentive_programs"@ =~= seq!['c', 'o', 'm', 'p', 'l', 'e', 't', 'e', 'd', '_', 'i', 'n', 'c', 'e', 'n', 't', 'i', 'v', 'e', '_', 'p', 'r', 'o', 'g', 'r', 'a', 'm', 's']);
    reveal_strlit("ongoing_incentive_programs");
    assert("ongoing_incentive_programs"@ =~= seq!['o', 'n', 'g', 'o', 'i', 'n', 'g', '_', 'i', 'n', 'c', 'e', 'n', 't', 'i', 'v', 'e', '_', 'p', 'r', 'o', 'g', 'r', 'a', 'm', 's']);
    reveal_strlit("upcoming_incentive_programs");
    assert("upcoming_incentive_programs"@ =~= seq!['u', 'p', 'c', 'o', 'm', 'i', 'n', 'g', '_', 'i', 'n', 'c', 'e', 'n', 't', 'i', 'v', 'e', '_', 'p', 'r', 'o', 'g', 'r', 'a', 'm', 's']);
    reveal_strlit("incentive_program");
    assert("incentive_program"@ =~= seq!['i', 'n', 'c', 'e', 'n', 't', 'i', 'v', 'e', '_', 'p', 'r', 'o', 'g', 'r', 'a', 'm']);
    reveal_strlit("current_rates");
    assert("current_rates"@ =~= seq!['c', 'u', 'r', 'r', 'e', 'n', 't', '_', 'r', 'a', 't', 'e', 's']);
    reveal_strlit("actual_rates");
    assert("actual_rates"@ =~= seq!['a', 'c', 't', 'u', 'a', 'l', '_', 'r', 'a', 't', 'e', 's']);
    reveal_strlit("last_reward_time");
    assert("last_reward_time"@ =~= seq!['l', 'a', 's', 't', '_', 'r', 'e', 'w', 'a', 'r', 'd', '_', 't', 'i', 'm', 'e']);
}

/// Every value's wire record is a single-entry object.
proof fn lemma_umee_query_incentive_shape(x: UmeeQueryIncentive)
    ensures
        x.jval() is Obj,
        x.jval()->Obj_0.len() == 1,
{
    match x {
        UmeeQueryIncentive::IncentiveParameters(q) => {
            assert(x.jval()->Obj_0.len() == 1);
        },
        UmeeQueryIncentive::TotalBonded(q) => {
            assert(x.jval()->Obj_0.len() == 1);
        },
        UmeeQueryIncentive::TotalUnbonding(q) => {
            assert(x.jval()->Obj_0.len() == 1);
        },
        UmeeQueryIncentive::AccountBonds(q) => {
            assert(x.jval()->Obj_0.len() == 1);
        },
        UmeeQueryIncentive::PendingRewards(q) => {
            assert(x.jval()->Obj_0.len() == 1);
        },
        UmeeQueryIncentive::CompletedIncentivePrograms(q) => {
            assert(x.jval()->Obj_0.len() == 1);
        },
        UmeeQueryIncentive::OngoingIncentivePrograms(q) => {
            assert(x.jval()->Obj_0.len() == 1);
        },
        UmeeQueryIncentive::UpcomingIncentivePrograms(q) => {
            assert(x.jval()->Obj_0.len() == 1);
        },
        UmeeQueryIncentive::IncentiveProgram(q) => {
            assert(x.jval()->Obj_0.len() == 1);
        },
        UmeeQueryIncentive::CurrentRates(q) => {
            assert(x.jval()->Obj_0.len() == 1);
        },
        UmeeQueryIncentive::ActualRates(q) => {
            assert(x.jval()->Obj_0.len() == 1);
        },
        UmeeQueryIncentive::LastRewardTime(q) => {
            assert(x.jval()->Obj_0.len() == 1);
        },
    }
}

/// A value whose wire record is this single entry is the variant the
/// entry's key names, and the entry's payload is that variant's.
proof fn lemma_umee_query_incentive_tag(x: UmeeQueryIncentive, e: (Seq<char>, JsonSpec))
    requires
        JsonSpec::Obj(seq![e]) == x.jval(),
    ensures
        ({
            ||| (x matches UmeeQueryIncentive::IncentiveParameters(q) && e == ("incentive_parameters"@, q.jval()))
            ||| (x matches UmeeQueryIncentive::TotalBonded(q) && e == ("total_bonded"@, q.jval()))
            ||| (x matches UmeeQueryIncentive::TotalUnbonding(q) && e == ("total_unbonding"@, q.jval()))
            ||| (x matches UmeeQueryIncentive::AccountBonds(q) && e == ("account_bonds"@, q.jval()))
            ||| (x matches UmeeQueryIncentive::PendingRewards(q) && e == ("pending_rewards"@, q.jval()))
            ||| (x matches UmeeQueryIncentive::CompletedIncentivePrograms(q) && e == ("completed_incentive_programs"@, q.jval()))
            ||| (x matches UmeeQueryIncentive::OngoingIncentivePrograms(q) && e == ("ongoing_incentive_programs"@, q.jval()))
            ||| (x matches UmeeQueryIncentive::UpcomingIncentivePrograms(q) && e == ("upcoming_incentive_programs"@, q.jval()))
            ||| (x matches UmeeQueryIncentive::IncentiveProgram(q) && e == ("incentive_program"@, q.jval()))
            ||| (x matches UmeeQueryIncentive::CurrentRates(q) && e == ("current_rates"@, q.jval()))
            ||| (x matches UmeeQueryIncentive::ActualRates(q) && e == ("actual_rates"@, q.jval()))
            ||| (x matches UmeeQueryIncentive::LastRewardTime(q) && e == ("last_reward_time"@, q.jval()))
        }),
{
    match x {
        UmeeQueryIncentive::IncentiveParameters(q) => {
            assert(x.jval()->Obj_0[0] == ("incentive_parameters"@, q.jval()));
            assert(e == ("incentive_parameters"@, q.jval()));
        },
        UmeeQueryIncentive::TotalBonded(q) => {
            assert(x.jval()->Obj_0[0] == ("total_bonded"@, q.jval()));
            assert(e == ("total_bonded"@, q.jval()));
        },
        UmeeQueryIncentive::TotalUnbonding(q) => {
            assert(x.jval()->Obj_0[0] == ("total_unbonding"@, q.jval()));
            assert(e == ("total_unbonding"@, q.jval()));
        },
        UmeeQueryIncentive::AccountBonds(q) => {
            assert(x.jval()->Obj_0[0] == ("account_bonds"@, q.jval()));
            assert(e == ("account_bonds"@, q.jval()));
        },
        UmeeQueryIncentive::PendingRewards(q) => {
            assert(x.jval()->Obj_0[0] == ("pending_rewards"@, q.jval()));
            assert(e == ("pending_rewards"@, q.jval()));
        },
        UmeeQueryIncentive::CompletedIncentivePrograms(q) => {
            assert(x.jval()->Obj_0[0] == ("completed_incentive_programs"@, q.jval()));
            assert(e == ("completed_incentive_programs"@, q.jval()));
        },
        UmeeQueryIncentive::OngoingIncentivePrograms(q) => {
            assert(x.jval()->Obj_0[0] == ("ongoing_incentive_programs"@, q.jval()));
            assert(e == ("ongoing_incentive_programs"@, q.jval()));
        },
        UmeeQueryIncentive::UpcomingIncentivePrograms(q) => {
            assert(x.jval()->Obj_0[0] == ("upcoming_incentive_programs"@, q.jval()));
            assert(e == ("upcoming_incentive_programs"@, q.jval()));
        },
        UmeeQueryIncentive::IncentiveProgram(q) => {
            assert(x.jval()->Obj_0[0] == ("incentive_program"@, q.jval()));
            assert(e == ("incentive_program"@, q.jval()));
        },
        UmeeQueryIncentive::CurrentRates(q) => {
            assert(x.jval()->Obj_0[0] == ("current_rates"@, q.jval()));
            assert(e == ("current_rates"@, q.jval()));
        },
        UmeeQueryIncentive::ActualRates(q) => {
            assert(x.jval()->Obj_0[0] == ("actual_rates"@, q.jval()));
            assert(e == ("actual_rates"@, q.jval()));
        },
        UmeeQueryIncentive::LastRewardTime(q) => {
            assert(x.jval()->Obj_0[0] == ("last_reward_time"@, q.jval()));
            assert(e == ("last_reward_time"@, q.jval()));
        },
    }
}

/// A single-entry wire shape under this key decodes only through its
/// own payload type.
proof fn lemma_umee_query_incentive_reject_incentive_parameters(e: (Seq<char>, JsonSpec))
    requires
        e.0 == "incentive_parameters"@,
        forall|y: IncentiveParametersParams| e.1 != #[trigger] y.jval(),
    ensures
        forall|x: UmeeQueryIncentive| JsonSpec::Obj(seq![e]) != #[trigger] x.jval(),
{
    lemma_umee_query_incentive_keys();
    assert forall|x: UmeeQueryIncentive| JsonSpec::Obj(seq![e]) != #[trigger] x.jval() by {
        if JsonSpec::Obj(seq![e]) == x.jval() {
            lemma_umee_query_incentive_tag(x, e);
            match x {
                UmeeQueryIncentive::IncentiveParameters(q) => {
                    assert(e.1 == q.jval());
                },
                _ => {},
            }
        }
    }
}

/// A single-entry wire shape under this key decodes only through its
/// own payload type.
proof fn lemma_umee_query_incentive_reject_total_bonded(e: (Seq<char>, JsonSpec))
    requires
        e.0 == "total_bonded"@,
        forall|y: TotalBondedParams| e.1 != #[trigger] y.jval(),
    ensures
        forall|x: UmeeQueryIncentive| JsonSpec::Obj(seq![e]) != #[trigger] x.jval(),
{
    lemma_umee_query_incentive_keys();
    assert forall|x: UmeeQueryIncentive| JsonSpec::Obj(seq![e]) != #[trigger] x.jval() by {
        if JsonSpec::Obj(seq![e]) == x.jval() {
            lemma_umee_query_incentive_tag(x, e);
            match x {
                UmeeQueryIncentive::TotalBonded(q) => {
                    assert(e.1 == q.jval());
                },
                _ => {},
            }
        }
    }
}

/// A single-entry wire shape under this key decodes only through its
/// own payload type.
proof fn lemma_umee_query_incentive_reject_total_unbonding(e: (Seq<char>, JsonSpec))
    requires
        e.0 == "total_unbonding"@,
        forall|y: TotalUnbondingParams| e.1 != #[trigger] y.jval(),
    ensures
        forall|x: UmeeQueryIncentive| JsonSpec::Obj(seq![e]) != #[trigger] x.jval(),
{
    lemma_umee_query_incentive_keys();
    assert forall|x: UmeeQueryIncentive| JsonSpec::Obj(seq![e]) != #[trigger] x.jval() by {
        if JsonSpec::Obj(seq![e]) == x.jval() {
            lemma_umee_query_incentive_tag(x, e);
            match x {
                UmeeQueryIncentive::TotalUnbonding(q) => {
                    assert(e.1 == q.jval());
                },
                _ => {},
            }
        }
    }
}

/// A single-entry wire shape under this key decodes only through its
/// own payload type.
proof fn lemma_umee_query_incentive_reject_account_bonds(e: (Seq<char>, JsonSpec))
    requires
        e.0 == "account_bonds"@,
        forall|y: AccountBondsParams| e.1 != #[trigger] y.jval(),
    ensures
        forall|x: UmeeQueryIncentive| JsonSpec::Obj(seq![e]) != #[trigger] x.jval(),
{
    lemma_umee_query_incentive_keys();
    assert forall|x: UmeeQueryIncentive| JsonSpec::Obj(seq![e]) != #[trigger] x.jval() by {
        if JsonSpec::Obj(seq![e]) == x.jval() {
            lemma_umee_query_incentive_tag(x, e);
            match x {
                UmeeQueryIncentive::AccountBonds(q) => {
                    assert(e.1 == q.jval());
                },
                _ => {},
            }
        }
    }
}

/// A single-entry wire shape under this key decodes only through its
/// own payload type.
proof fn lemma_umee_query_incentive_reject_pending_rewards(e: (Seq<char>, JsonSpec))
    requires
        e.0 == "pending_rewards"@,
        forall|y: PendingRewardsParams| e.1 != #[trigger] y.jval(),
    ensures
        forall|x: UmeeQueryIncentive| JsonSpec::Obj(seq![e]) != #[trigger] x.jval(),
{
    lemma_umee_query_incentive_keys();
    assert forall|x: UmeeQueryIncentive| JsonSpec::Obj(seq![e]) != #[trigger] x.jval() by {
        if JsonSpec::Obj(seq![e]) == x.jval() {
            lemma_umee_query_incentive_tag(x, e);
            match x {
                UmeeQueryIncentive::PendingRewards(q) => {
                    assert(e.1 == q.jval());
                },
                _ => {},
            }
        }
    }
}

/// A single-entry wire shape under this key decodes only through its
/// own payload type.
proof fn lemma_umee_query_incentive_reject_completed_incentive_programs(e: (Seq<char>, JsonSpec))
    requires
        e.0 == "completed_incentive_programs"@,
        forall|y: CompletedIncentiveProgramsParams| e.1 != #[trigger] y.jval(),
    ensures
        forall|x: UmeeQueryIncentive| JsonSpec::Obj(seq![e]) != #[trigger] x.jval(),
{
    lemma_umee_query_incentive_keys();
    assert forall|x: UmeeQueryIncentive| JsonSpec::Obj(seq![e]) != #[trigger] x.jval() by {
        if JsonSpec::Obj(seq![e]) == x.jval() {
            lemma_umee_query_incentive_tag(x, e);
            match x {
                UmeeQueryIncentive::CompletedIncentivePrograms(q) => {
                    assert(e.1 == q.jval());
                },
                _ => {},
            }
        }
    }
}

/// A single-entry wire shape under this key decodes only through its
/// own payload type.
proof fn lemma_umee_query_incentive_reject_ongoing_incentive_programs(e: (Seq<char>, JsonSpec))
    requires
        e.0 == "ongoing_incentive_programs"@,
        forall|y: OngoingIncentiveProgramsParams| e.1 != #[trigger] y.jval(),
    ensures
        forall|x: UmeeQueryIncentive| JsonSpec::Obj(seq![e]) != #[trigger] x.jval(),
{
    lemma_umee_query_incentive_keys();
    assert forall|x: UmeeQueryIncentive| JsonSpec::Obj(seq![e]) != #[trigger] x.jval() by {
        if JsonSpec::Obj(seq![e]) == x.jval() {
            lemma_umee_query_incentive_tag(x, e);
            match x {
                UmeeQueryIncentive::OngoingIncentivePrograms(q) => {
                    assert(e.1 == q.jval());
                },
                _ => {},
            }
        }
    }
}

/// A single-entry wire shape under this key decodes only through its
/// own payload type.
proof fn lemma_umee_query_incentive_reject_upcoming_incentive_programs(e: (Seq<char>, JsonSpec))
    requires
        e.0 == "upcoming_incentive_programs"@,
        forall|y: UpcomingIncentiveProgramsParams| e.1 != #[trigger] y.jval(),
    ensures
        forall|x: UmeeQueryIncentive| JsonSpec::Obj(seq![e]) != #[trigger] x.jval(),
{
    lemma_umee_query_incentive_keys();
    assert forall|x: UmeeQueryIncentive| JsonSpec::Obj(seq![e]) != #[trigger] x.jval() by {
        if JsonSpec::Obj(seq![e]) == x.jval() {
            lemma_umee_query_incentive_tag(x, e);
            match x {
                UmeeQueryIncentive::UpcomingIncentivePrograms(q) => {
                    assert(e.1 == q.jval());
                },
                _ => {},
            }
        }
    }
}

/// A single-entry wire shape under this key decodes only through its
/// own payload type.
proof fn lemma_umee_query_incentive_reject_incentive_program(e: (Seq<char>, JsonSpec))
    requires
        e.0 == "incentive_program"@,
        forall|y: IncentiveProgramParams| e.1 != #[trigger] y.jval(),
    ensures
        forall|x: UmeeQueryIncentive| JsonSpec::Obj(seq![e]) != #[trigger] x.jval(),
{
    lemma_umee_query_incentive_keys();
    assert forall|x: UmeeQueryIncentive| JsonSpec::Obj(seq![e]) != #[trigger] x.jval() by {
        if JsonSpec::Obj(seq![e]) == x.jval() {
            lemma_umee_query_incentive_tag(x, e);
            match x {
                UmeeQueryIncentive::IncentiveProgram(q) => {
                    assert(e.1 == q.jval());
                },
                _ => {},
            }
        }
    }
}

/// A single-entry wire shape under this key decodes only through its
/// own payload type.
proof fn lemma_umee_query_incentive_reject_current_rates(e: (Seq<char>, JsonSpec))
    requires
        e.0 == "current_rates"@,
        forall|y: CurrentRatesParams| e.1 != #[trigger] y.jval(),
    ensures
        forall|x: UmeeQueryIncentive| JsonSpec::Obj(seq![e]) != #[trigger] x.jval(),
{
    lemma_umee_query_incentive_keys();
    assert forall|x: UmeeQueryIncentive| JsonSpec::Obj(seq![e]) != #[trigger] x.jval() by {
        if JsonSpec::Obj(seq![e]) == x.jval() {
            lemma_umee_query_incentive_tag(x, e);
            match x {
                UmeeQueryIncentive::CurrentRates(q) => {
                    assert(e.1 == q.jval());
                },
                _ => {},
            }
        }
    }
}

/// A single-entry wire shape under this key decodes only through its
/// own payload type.
proof fn lemma_umee_query_incentive_reject_actual_rates(e: (Seq<char>, JsonSpec))
    requires
        e.0 == "actual_rates"@,
        forall|y: ActualRatesParams| e.1 != #[trigger] y.jval(),
    ensures
        forall|x: UmeeQueryIncentive| JsonSpec::Obj(seq![e]) != #[trigger] x.jval(),
{
    lemma_umee_query_incentive_keys();
    assert forall|x: UmeeQueryIncentive| JsonSpec::Obj(seq![e]) != #[trigger] x.jval() by {
        if JsonSpec::Obj(seq![e]) == x.jval() {
            lemma_umee_query_incentive_tag(x, e);
            match x {
                UmeeQueryIncentive::ActualRates(q) => {
                    assert(e.1 == q.jval());
                },
                _ => {},
            }
        }
    }
}

/// A single-entry wire shape under this key decodes only through its
/// own payload type.
proof fn lemma_umee_query_incentive_reject_last_reward_time(e: (Seq<char>, JsonSpec))
    requires
        e.0 == "last_reward_time"@,
        forall|y: LastRewardTimeParams| e.1 != #[trigger] y.jval(),
    ensures
        forall|x: UmeeQueryIncentive| JsonSpec::Obj(seq![e]) != #[trigger] x.jval(),
{
    lemma_umee_query_incentive_keys();
    assert forall|x: UmeeQueryIncentive| JsonSpec::Obj(seq![e]) != #[trigger] x.jval() by {
        if JsonSpec::Obj(seq![e]) == x.jval() {
            lemma_umee_query_incentive_tag(x, e);
            match x {
                UmeeQueryIncentive::LastRewardTime(q) => {
                    assert(e.1 == q.jval());
                },
                _ => {},
            }
        }
    }
}

/// A single-entry wire shape under an unknown key decodes to nothing.
proof fn lemma_umee_query_incentive_reject_other(e: (Seq<char>, JsonSpec))
    requires
        e.0 != "incentive_parameters"@,
        e.0 != "total_bonded"@,
        e.0 != "total_unbonding"@,
        e.0 != "account_bonds"@,
        e.0 != "pending_rewards"@,
        e.0 != "completed_incentive_programs"@,
        e.0 != "ongoing_incentive_programs"@,
        e.0 != "upcoming_incentive_programs"@,
        e.0 != "incentive_program"@,
        e.0 != "current_rates"@,
        e.0 != "actual_rates"@,
        e.0 != "last_reward_time"@,
    ensures
        forall|x: UmeeQueryIncentive| JsonSpec::Obj(seq![e]) != #[trigger] x.jval(),
{
    assert forall|x: UmeeQueryIncentive| JsonSpec::Obj(seq![e]) != #[trigger] x.jval() by {
        if JsonSpec::Obj(seq![e]) == x.jval() {
            lemma_umee_query_incentive_tag(x, e);
        }
    }
}

impl WireRecord for UmeeQueryIncentive {
    open spec fn jval(self) -> JsonSpec {
        match self {
            UmeeQueryIncentive::IncentiveParameters(p) => JsonSpec::Obj(seq![("incentive_parameters"@, p.jval())]),
            UmeeQueryIncentive::TotalBonded(p) => JsonSpec::Obj(seq![("total_bonded"@, p.jval())]),
            UmeeQueryIncentive::TotalUnbonding(p) => JsonSpec::Obj(seq![("total_unbonding"@, p.jval())]),
            UmeeQueryIncentive::AccountBonds(p) => JsonSpec::Obj(seq![("account_bonds"@, p.jval())]),
            UmeeQueryIncentive::PendingRewards(p) => JsonSpec::Obj(seq![("pending_rewards"@, p.jval())]),
            UmeeQueryIncentive::CompletedIncentivePrograms(p) => JsonSpec::Obj(seq![("completed_incentive_programs"@, p.jval())]),
            UmeeQueryIncentive::OngoingIncentivePrograms(p) => JsonSpec::Obj(seq![("ongoing_incentive_programs"@, p.jval())]),
            UmeeQueryIncentive::UpcomingIncentivePrograms(p) => JsonSpec::Obj(seq![("upcoming_incentive_programs"@, p.jval())]),
            UmeeQueryIncentive::IncentiveProgram(p) => JsonSpec::Obj(seq![("incentive_program"@, p.jval())]),
            UmeeQueryIncentive::CurrentRates(p) => JsonSpec::Obj(seq![("current_rates"@, p.jval())]),
            UmeeQueryIncentive::ActualRates(p) => JsonSpec::Obj(seq![("actual_rates"@, p.jval())]),
            UmeeQueryIncentive::LastRewardTime(p) => JsonSpec::Obj(seq![("last_reward_time"@, p.jval())]),
        }
    }

    proof fn jval_wf(self) {
        match self {
            UmeeQueryIncentive::IncentiveParameters(p) => {
                p.jval_wf();
                assert forall|k: int| 0 <= k < self.jval()->Obj_0.len() implies json_wf(
                    #[trigger] self.jval()->Obj_0[k].1,
                ) by {
                    assert(json_wf(self.jval()->Obj_0[0].1));
                }
            },
            UmeeQueryIncentive::TotalBonded(p) => {
                p.jval_wf();
                assert forall|k: int| 0 <= k < self.jval()->Obj_0.len() implies json_wf(
                    #[trigger] self.jval()->Obj_0[k].1,
                ) by {
                    assert(json_wf(self.jval()->Obj_0[0].1));
                }
            },
            UmeeQueryIncentive::TotalUnbonding(p) => {
                p.jval_wf();
                assert forall|k: int| 0 <= k < self.jval()->Obj_0.len() implies json_wf(
                    #[trigger] self.jval()->Obj_0[k].1,
                ) by {
                    assert(json_wf(self.jval()->Obj_0[0].1));
                }
            },
            UmeeQueryIncentive::AccountBonds(p) => {
                p.jval_wf();
                assert forall|k: int| 0 <= k < self.jval()->Obj_0.len() implies json_wf(
                    #[trigger] self.jval()->Obj_0[k].1,
                ) by {
                    assert(json_wf(self.jval()->Obj_0[0].1));
                }
            },
            UmeeQueryIncentive::PendingRewards(p) => {
                p.jval_wf();
                assert forall|k: int| 0 <= k < self.jval()->Obj_0.len() implies json_wf(
                    #[trigger] self.jval()->Obj_0[k].1,
                ) by {
                    assert(json_wf(self.jval()->Obj_0[0].1));
                }
            },
            UmeeQueryIncentive::CompletedIncentivePrograms(p) => {
                p.jval_wf();
                assert forall|k: int| 0 <= k < self.jval()->Obj_0.len() implies json_wf(
                    #[trigger] self.jval()->Obj_0[k].1,
                ) by {
                    assert(json_wf(self.jval()->Obj_0[0].1));
                }
            },
            UmeeQueryIncentive::OngoingIncentivePrograms(p) => {
                p.jval_wf();
                assert forall|k: int| 0 <= k < self.jval()->Obj_0.len() implies json_wf(
                    #[trigger] self.jval()->Obj_0[k].1,
                ) by {
                    assert(json_wf(self.jval()->Obj_0[0].1));
                }
            },
            UmeeQueryIncentive::UpcomingIncentivePrograms(p) => {
                p.jval_wf();
                assert forall|k: int| 0 <= k < self.jval()->Obj_0.len() implies json_wf(
                    #[trigger] self.jval()->Obj_0[k].1,
                ) by {
                    assert(json_wf(self.jval()->Obj_0[0].1));
                }
            },
            UmeeQueryIncentive::IncentiveProgram(p) => {
                p.jval_wf();
                assert forall|k: int| 0 <= k < self.jval()->Obj_0.len() implies json_wf(
                    #[trigger] self.jval()->Obj_0[k].1,
                ) by {
                    assert(json_wf(self.jval()->Obj_0[0].1));
                }
            },
            UmeeQueryIncentive::CurrentRates(p) => {
                p.jval_wf();
                assert forall|k: int| 0 <= k < self.jval()->Obj_0.len() implies json_wf(
                    #[trigger] self.jval()->Obj_0[k].1,
                ) by {
                    assert(json_wf(self.jval()->Obj_0[0].1));
                }
            },
            UmeeQueryIncentive::ActualRates(p) => {
                p.jval_wf();
                assert forall|k: int| 0 <= k < self.jval()->Obj_0.len() implies json_wf(
                    #[trigger] self.jval()->Obj_0[k].1,
                ) by {
                    assert(json_wf(self.jval()->Obj_0[0].1));
                }
            },
            UmeeQueryIncentive::LastRewardTime(p) => {
                p.jval_wf();
                assert forall|k: int| 0 <= k < self.jval()->Obj_0.len() implies json_wf(
                    #[trigger] self.jval()->Obj_0[k].1,
                ) by {
                    assert(json_wf(self.jval()->Obj_0[0].1));
                }
            },
        }
    }

    fn build_jval(&self) -> (r: JsonVal) {
        match self {
            UmeeQueryIncentive::IncentiveParameters(p) => {
                let mut entries: Vec<JsonEntry> = Vec::new();
                entries.push(JsonEntry { key: String::from_str("incentive_parameters"), val: p.build_jval() });
                let ghost ges = entries@;
                let r = JsonVal::Obj(entries);
                proof {
                    assert(r.dv()->Obj_0[0] == (ges[0].key@, ges[0].val.dv()));
                    assert(r.dv()->Obj_0 =~~= self.jval()->Obj_0);
                    assert(r.dv() =~~= self.jval());
                    assert(ges[0].val.wf());
                }
                r
            },
            UmeeQueryIncentive::TotalBonded(p) => {
                let mut entries: Vec<JsonEntry> = Vec::new();
                entries.push(JsonEntry { key: String::from_str("total_bonded"), val: p.build_jval() });
                let ghost ges = entries@;
                let r = JsonVal::Obj(entries);
                proof {
                    assert(r.dv()->Obj_0[0] == (ges[0].key@, ges[0].val.dv()));
                    assert(r.dv()->Obj_0 =~~= self.jval()->Obj_0);
                    assert(r.dv() =~~= self.jval());
                    assert(ges[0].val.wf());
                }
                r
            },
            UmeeQueryIncentive::TotalUnbonding(p) => {
                let mut entries: Vec<JsonEntry> = Vec::new();
                entries.push(JsonEntry { key: String::from_str("total_unbonding"), val: p.build_jval() });
                let ghost ges = entries@;
                let r = JsonVal::Obj(entries);
                proof {
                    assert(r.dv()->Obj_0[0] == (ges[0].key@, ges[0].val.dv()));
                    assert(r.dv()->Obj_0 =~~= self.jval()->Obj_0);
                    assert(r.dv() =~~= self.jval());
                    assert(ges[0].val.wf());
                }
                r
            },
            UmeeQueryIncentive::AccountBonds(p) => {
                let mut entries: Vec<JsonEntry> = Vec::new();
                entries.push(JsonEntry { key: String::from_str("account_bonds"), val: p.build_jval() });
                let ghost ges = entries@;
                let r = JsonVal::Obj(entries);
                proof {
                    assert(r.dv()->Obj_0[0] == (ges[0].key@, ges[0].val.dv()));
                    assert(r.dv()->Obj_0 =~~= self.jval()->Obj_0);
                    assert(r.dv() =~~= self.jval());
                    assert(ges[0].val.wf());
                }
                r
            },
            UmeeQueryIncentive::PendingRewards(p) => {
                let mut entries: Vec<JsonEntry> = Vec::new();
                entries.push(JsonEntry { key: String::from_str("pending_rewards"), val: p.build_jval() });
                let ghost ges = entries@;
                let r = JsonVal::Obj(entries);
                proof {
                    assert(r.dv()->Obj_0[0] == (ges[0].key@, ges[0].val.dv()));
                    assert(r.dv()->Obj_0 =~~= self.jval()->Obj_0);
                    assert(r.dv() =~~= self.jval());
                    assert(ges[0].val.wf());
                }
                r
            },
            UmeeQueryIncentive::CompletedIncentivePrograms(p) => {
                let mut entries: Vec<JsonEntry> = Vec::new();
                entries.push(JsonEntry { key: String::from_str("completed_incentive_programs"), val: p.build_jval() });
                let ghost ges = entries@;
                let r = JsonVal::Obj(entries);
                proof {
                    assert(r.dv()->Obj_0[0] == (ges[0].key@, ges[0].val.dv()));
                    assert(r.dv()->Obj_0 =~~= self.jval()->Obj_0);
                    assert(r.dv() =~~= self.jval());
                    assert(ges[0].val.wf());
                }
                r
            },
            UmeeQueryIncentive::OngoingIncentivePrograms(p) => {
                let mut entries: Vec<JsonEntry> = Vec::new();
                entries.push(JsonEntry { key: String::from_str("ongoing_incentive_programs"), val: p.build_jval() });
                let ghost ges = entries@;
                let r = JsonVal::Obj(entries);
                proof {
                    assert(r.dv()->Obj_0[0] == (ges[0].key@, ges[0].val.dv()));
                    assert(r.dv()->Obj_0 =~~= self.jval()->Obj_0);
                    assert(r.dv() =~~= self.jval());
                    assert(ges[0].val.wf());
                }
                r
            },
            UmeeQueryIncentive::UpcomingIncentivePrograms(p) => {
                let mut entries: Vec<JsonEntry> = Vec::new();
                entries.push(JsonEntry { key: String::from_str("upcoming_incentive_programs"), val: p.build_jval() });
                let ghost ges = entries@;
                let r = JsonVal::Obj(entries);
                proof {
                    assert(r.dv()->Obj_0[0] == (ges[0].key@, ges[0].val.dv()));
                    assert(r.dv()->Obj_0 =~~= self.jval()->Obj_0);
                    assert(r.dv() =~~= self.jval());
                    assert(ges[0].val.wf());
                }
                r
            },
            UmeeQueryIncentive::IncentiveProgram(p) => {
                let mut entries: Vec<JsonEntry> = Vec::new();
                entries.push(JsonEntry { key: String::from_str("incentive_program"), val: p.build_jval() });
                let ghost ges = entries@;
                let r = JsonVal::Obj(entries);
                proof {
                    assert(r.dv()->Obj_0[0] == (ges[0].key@, ges[0].val.dv()));
                    assert(r.dv()->Obj_0 =~~= self.jval()->Obj_0);
                    assert(r.dv() =~~= self.jval());
                    assert(ges[0].val.wf());
                }
                r
            },
            UmeeQueryIncentive::CurrentRates(p) => {
                let mut entries: Vec<JsonEntry> = Vec::new();
                entries.push(JsonEntry { key: String::from_str("current_rates"), val: p.build_jval() });
                let ghost ges = entries@;
                let r = JsonVal::Obj(entries);
                proof {
                    assert(r.dv()->Obj_0[0] == (ges[0].key@, ges[0].val.dv()));
                    assert(r.dv()->Obj_0 =~~= self.jval()->Obj_0);
                    assert(r.dv() =~~= self.jval());
                    assert(ges[0].val.wf());
                }
                r
            },
            UmeeQueryIncentive::ActualRates(p) => {
                let mut entries: Vec<JsonEntry> = Vec::new();
                entries.push(JsonEntry { key: String::from_str("actual_rates"), val: p.build_jval() });
                let ghost ges = entries@;
                let r = JsonVal::Obj(entries);
                proof {
                    assert(r.dv()->Obj_0[0] == (ges[0].key@, ges[0].val.dv()));
                    assert(r.dv()->Obj_0 =~~= self.jval()->Obj_0);
                    assert(r.dv() =~~= self.jval());
                    assert(ges[0].val.wf());
                }
                r
            },
            UmeeQueryIncentive::LastRewardTime(p) => {
                let mut entries: Vec<JsonEntry> = Vec::new();
                entries.push(JsonEntry { key: String::from_str("last_reward_time"), val: p.build_jval() });
                let ghost ges = entries@;
                let r = JsonVal::Obj(entries);
                proof {
                    assert(r.dv()->Obj_0[0] == (ges[0].key@, ges[0].val.dv()));
                    assert(r.dv()->Obj_0 =~~= self.jval()->Obj_0);
                    assert(r.dv() =~~= self.jval());
                    assert(ges[0].val.wf());
                }
                r
            },
        }
    }

    fn from_jval(v: &JsonVal) -> (r: Option<UmeeQueryIncentive>) {
        match v {
            JsonVal::Obj(entries) => {
                if entries.len() == 1 {
                    proof {
                        assert(v.dv()->Obj_0[0] == (entries@[0].key@, entries@[0].val.dv()));
                        assert(v.dv()->Obj_0 =~~= seq![(entries@[0].key@, entries@[0].val.dv())]);
                        assert(v.dv() =~~= JsonSpec::Obj(seq![(entries@[0].key@, entries@[0].val.dv())]));
                    }
                    let key = entries[0].key.as_str();
                    if str_eq(key, "incentive_parameters") {
                        match WireRecord::from_jval(&entries[0].val) {
                            Some(p) => {
                                let x = UmeeQueryIncentive::IncentiveParameters(p);
                                proof {
                                    assert(x.jval()->Obj_0 =~~= v.dv()->Obj_0);
                                    assert(x.jval() =~~= v.dv());
                                }
                                Some(x)
                            },
                            None => {
                                proof {
                                    lemma_umee_query_incentive_reject_incentive_parameters((entries@[0].key@, entries@[0].val.dv()));
                                }
                                None
                            },
                        }
                    } else if str_eq(key, "total_bonded") {
                        match WireRecord::from_jval(&entries[0].val) {
                            Some(p) => {
                                let x = UmeeQueryIncentive::TotalBonded(p);
                                proof {
                                    assert(x.jval()->Obj_0 =~~= v.dv()->Obj_0);
                                    assert(x.jval() =~~= v.dv());
                                }
                                Some(x)
                            },
                            None => {
                                proof {
                                    lemma_umee_query_incentive_reject_total_bonded((entries@[0].key@, entries@[0].val.dv()));
                                }
                                None
                            },
                        }
                    } else if str_eq(key, "total_unbonding") {
                        match WireRecord::from_jval(&entries[0].val) {
                            Some(p) => {
                                let x = UmeeQueryIncentive::TotalUnbonding(p);
                                proof {
                                    assert(x.jval()->Obj_0 =~~= v.dv()->Obj_0);
                                    assert(x.jval() =~~= v.dv());
                                }
                                Some(x)
                            },
                            None => {
                                proof {
                                    lemma_umee_query_incentive_reject_total_unbonding((entries@[0].key@, entries@[0].val.dv()));
                                }
                                None
                            },
                        }
                    } else if str_eq(key, "account_bonds") {
                        match WireRecord::from_jval(&entries[0].val) {
                            Some(p) => {
                                let x = UmeeQueryIncentive::AccountBonds(p);
                                proof {
                                    assert(x.jval()->Obj_0 =~~= v.dv()->Obj_0);
                                    assert(x.jval() =~~= v.dv());
                                }
                                Some(x)
                            },
                            None => {
                                proof {
                                    lemma_umee_query_incentive_reject_account_bonds((entries@[0].key@, entries@[0].val.dv()));
                                }
                                None
                            },
                        }
                    } else if str_eq(key, "pending_rewards") {
                        match WireRecord::from_jval(&entries[0].val) {
                            Some(p) => {
                                let x = UmeeQueryIncentive::PendingRewards(p);
                                proof {
                                    assert(x.jval()->Obj_0 =~~= v.dv()->Obj_0);
                                    assert(x.jval() =~~= v.dv());
                                }
                                Some(x)
                            },
                            None => {
                                proof {
                                    lemma_umee_query_incentive_reject_pending_rewards((entries@[0].key@, entries@[0].val.dv()));
                                }
                                None
                            },
                        }
                    } else if str_eq(key, "completed_incentive_programs") {
                        match WireRecord::from_jval(&entries[0].val) {
                            Some(p) => {
                                let x = UmeeQueryIncentive::CompletedIncentivePrograms(p);
                                proof {
                                    assert(x.jval()->Obj_0 =~~= v.dv()->Obj_0);
                                    assert(x.jval() =~~= v.dv());
                                }
                                Some(x)
                            },
                            None => {
                                proof {
                                    lemma_umee_query_incentive_reject_completed_incentive_programs((entries@[0].key@, entries@[0].val.dv()));
                                }
                                None
                            },
                        }
                    } else if str_eq(key, "ongoing_incentive_programs") {
                        match WireRecord::from_jval(&entries[0].val) {
                            Some(p) => {
                                let x = UmeeQueryIncentive::OngoingIncentivePrograms(p);
                                proof {
                                    assert(x.jval()->Obj_0 =~~= v.dv()->Obj_0);
                                    assert(x.jval() =~~= v.dv());
                                }
                                Some(x)
                            },
                            None => {
                                proof {
                                    lemma_umee_query_incentive_reject_ongoing_incentive_programs((entries@[0].key@, entries@[0].val.dv()));
                                }
                                None
                            },
                        }
                    } else if str_eq(key, "upcoming_incentive_programs") {
                        match WireRecord::from_jval(&entries[0].val) {
                            Some(p) => {
                                let x = UmeeQueryIncentive::UpcomingIncentivePrograms(p);
                                proof {
                                    assert(x.jval()->Obj_0 =~~= v.dv()->Obj_0);
                                    assert(x.jval() =~~= v.dv());
                                }
                                Some(x)
                            },
                            None => {
                                proof {
                                    lemma_umee_query_incentive_reject_upcoming_incentive_programs((entries@[0].key@, entries@[0].val.dv()));
                                }
                                None
                            },
                        }
                    } else if str_eq(key, "incentive_program") {
                        match WireRecord::from_jval(&entries[0].val) {
                            Some(p) => {
                                let x = UmeeQueryIncentive::IncentiveProgram(p);
                                proof {
                                    assert(x.jval()->Obj_0 =~~= v.dv()->Obj_0);
                                    assert(x.jval() =~~= v.dv());
                                }
                                Some(x)
                            },
                            None => {
                                proof {
                                    lemma_umee_query_incentive_reject_incentive_program((entries@[0].key@, entries@[0].val.dv()));
                                }
                                None
                            },
                        }
                    } else if str_eq(key, "current_rates") {
                        match WireRecord::from_jval(&entries[0].val) {
                            Some(p) => {
                                let x = UmeeQueryIncentive::CurrentRates(p);
                                proof {
                                    assert(x.jval()->Obj_0 =~~= v.dv()->Obj_0);
                                    assert(x.jval() =~~= v.dv());
                                }
                                Some(x)
                            },
                            None => {
                                proof {
                                    lemma_umee_query_incentive_reject_current_rates((entries@[0].key@, entries@[0].val.dv()));
                                }
                                None
                            },
                        }
                    } else if str_eq(key, "actual_rates") {
                        match WireRecord::from_jval(&entries[0].val) {
                            Some(p) => {
                                let x = UmeeQueryIncentive::ActualRates(p);
                                proof {
                                    assert(x.jval()->Obj_0 =~~= v.dv()->Obj_0);
                                    assert(x.jval() =~~= v.dv());
                                }
                                Some(x)
                            },
                            None => {
                                proof {
                                    lemma_umee_query_incentive_reject_actual_rates((entries@[0].key@, entries@[0].val.dv()));
                                }
                                None
                            },
                        }
                    } else if str_eq(key, "last_reward_time") {
                        match WireRecord::from_jval(&entries[0].val) {
                            Some(p) => {
                                let x = UmeeQueryIncentive::LastRewardTime(p);
                                proof {
                                    assert(x.jval()->Obj_0 =~~= v.dv()->Obj_0);
                                    assert(x.jval() =~~= v.dv());
                                }
                                Some(x)
                            },
                            None => {
                                proof {
                                    lemma_umee_query_incentive_reject_last_reward_time((entries@[0].key@, entries@[0].val.dv()));
                                }
                                None
                            },
                        }
                    } else {
                        proof {
                            lemma_umee_query_incentive_reject_other((entries@[0].key@, entries@[0].val.dv()));
                        }
                        None
                    }
                } else {
                    proof {
                        assert forall|x: UmeeQueryIncentive| v.dv() != #[trigger] x.jval() by {
                            lemma_umee_query_incentive_shape(x);
                        }
                    }
                    None
                }
            },
            _ => {
                proof {
                    assert forall|x: UmeeQueryIncentive| v.dv() != #[trigger] x.jval() by {
                        lemma_umee_query_incentive_shape(x);
                    }
                }
                None
            },
        }
    }
}
} // verus!
