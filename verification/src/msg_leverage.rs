//! Messages of the leverage module group.
//!
//! Each message kind carries the account that signs it and the assets it
//! moves; the catalog of kinds (`MsgTypes`) gives every kind its canonical
//! lowercase name.

use vstd::prelude::*;

use crate::base::{Addr, Coin};
use crate::record::WireRecord;
use crate::wire::{json_wf, str_eq, JsonEntry, JsonSpec, JsonVal};

verus! {

broadcast use vstd::string::group_string_axioms;

/// Supplies assets to the capital facility.
#[derive(Clone, Debug, PartialEq, Eq)]
pub struct SupplyParams {
    pub supplier: Addr,
    pub asset: Coin,
}
impl WireRecord for SupplyParams {
    open spec fn jval(self) -> JsonSpec {
        JsonSpec::Obj(
            seq![
                ("supplier"@, self.supplier.jval()),
                ("asset"@, self.asset.jval()),
            ],
        )
    }

    proof fn jval_wf(self) {
        self.supplier.jval_wf();
        self.asset.jval_wf();
        assert forall|k: int| 0 <= k < self.jval()->Obj_0.len() implies json_wf(
            #[trigger] self.jval()->Obj_0[k].1,
        ) by {
            if k == 0 {
                assert(json_wf(self.jval()->Obj_0[0].1));
            }
            if k == 1 {
                assert(json_wf(self.jval()->Obj_0[1].1));
            }
        }
    }

    fn build_jval(&self) -> (r: JsonVal) {
        let mut entries: Vec<JsonEntry> = Vec::new();
        entries.push(JsonEntry { key: String::from_str("supplier"), val: self.supplier.build_jval() });
        entries.push(JsonEntry { key: String::from_str("asset"), val: self.asset.build_jval() });
        let ghost ges = entries@;
        let r = JsonVal::Obj(entries);
        proof {
            let dvs = r.dv()->Obj_0;
            assert(dvs.len() == 2);
            assert(dvs[0] == (ges[0].key@, ges[0].val.dv()));
            assert(dvs[1] == (ges[1].key@, ges[1].val.dv()));
            assert(r.dv()->Obj_0 =~~= self.jval()->Obj_0);
            assert(r.dv() =~~= self.jval());
            assert(ges[0].val.wf());
            assert(ges[1].val.wf());
        }
        r
    }

    fn from_jval(v: &JsonVal) -> (r: Option<SupplyParams>) {
        match v {
            JsonVal::Obj(entries) => {
                let shape = entries.len() == 2 && str_eq(entries[0].key.as_str(), "supplier") && str_eq(entries[1].key.as_str(), "asset");
                proof {
                    let dvs = v.dv()->Obj_0;
                    assert(dvs.len() == entries@.len());
                    if entries@.len() == 2 {
                        assert(dvs[0] == (entries@[0].key@, entries@[0].val.dv()));
                        assert(dvs[1] == (entries@[1].key@, entries@[1].val.dv()));
                    }
                }
                if shape {
                    let g0: Option<Addr> = WireRecord::from_jval(&entries[0].val);
                    let g1: Option<Coin> = WireRecord::from_jval(&entries[1].val);
                    match (g0, g1) {
                        (Some(h0), Some(h1)) => {
                            let x = SupplyParams { supplier: h0, asset: h1 };
                            proof {
                                assert(x.jval()->Obj_0 =~~= v.dv()->Obj_0);
                                assert(x.jval() =~~= v.dv());
                            }
                            Some(x)
                        },
                        _ => {
                            proof {
                                assert forall|x: SupplyParams| v.dv() != #[trigger] x.jval() by {
                                    if v.dv() == x.jval() {
                                        assert(v.dv()->Obj_0[0].1 == x.supplier.jval());
                                        assert(v.dv()->Obj_0[1].1 == x.asset.jval());
                                    }
                                }
                            }
                            None
                        },
                    }
                } else {
                    proof {
                        assert forall|x: SupplyParams| v.dv() != #[trigger] x.jval() by {
                            if v.dv() == x.jval() {
                                assert(v.dv()->Obj_0.len() == 2);
                                assert(v.dv()->Obj_0[0].0 == "supplier"@);
                                assert(v.dv()->Obj_0[1].0 == "asset"@);
                            }
                        }
                    }
                    None
                }
            },
            _ => None,
        }
    }
}
/// Withdraws previously supplied assets.
#[derive(Clone, Debug, PartialEq, Eq)]
pub struct WithdrawParams {
    pub supplier: Addr,
    pub asset: Coin,
}
impl WireRecord for WithdrawParams {
    open spec fn jval(self) -> JsonSpec {
        JsonSpec::Obj(
            seq![
                ("supplier"@, self.supplier.jval()),
                ("asset"@, self.asset.jval()),
            ],
        )
    }

    proof fn jval_wf(self) {
        self.supplier.jval_wf();
        self.asset.jval_wf();
        assert forall|k: int| 0 <= k < self.jval()->Obj_0.len() implies json_wf(
            #[trigger] self.jval()->Obj_0[k].1,
        ) by {
            if k == 0 {
                assert(json_wf(self.jval()->Obj_0[0].1));
            }
            if k == 1 {
                assert(json_wf(self.jval()->Obj_0[1].1));
            }
        }
    }

    fn build_jval(&self) -> (r: JsonVal) {
        let mut entries: Vec<JsonEntry> = Vec::new();
        entries.push(JsonEntry { key: String::from_str("supplier"), val: self.supplier.build_jval() });
        entries.push(JsonEntry { key: String::from_str("asset"), val: self.asset.build_jval() });
        let ghost ges = entries@;
        let r = JsonVal::Obj(entries);
        proof {
            let dvs = r.dv()->Obj_0;
            assert(dvs.len() == 2);
            assert(dvs[0] == (ges[0].key@, ges[0].val.dv()));
            assert(dvs[1] == (ges[1].key@, ges[1].val.dv()));
            assert(r.dv()->Obj_0 =~~= self.jval()->Obj_0);
            assert(r.dv() =~~= self.jval());
            assert(ges[0].val.wf());
            assert(ges[1].val.wf());
        }
        r
    }

    fn from_jval(v: &JsonVal) -> (r: Option<WithdrawParams>) {
        match v {
            JsonVal::Obj(entries) => {
                let shape = entries.len() == 2 && str_eq(entries[0].key.as_str(), "supplier") && str_eq(entries[1].key.as_str(), "asset");
                proof {
                    let dvs = v.dv()->Obj_0;
                    assert(dvs.len() == entries@.len());
                    if entries@.len() == 2 {
                        assert(dvs[0] == (entries@[0].key@, entries@[0].val.dv()));
                        assert(dvs[1] == (entries@[1].key@, entries@[1].val.dv()));
                    }
                }
                if shape {
                    let g0: Option<Addr> = WireRecord::from_jval(&entries[0].val);
                    let g1: Option<Coin> = WireRecord::from_jval(&entries[1].val);
                    match (g0, g1) {
                        (Some(h0), Some(h1)) => {
                            let x = WithdrawParams { supplier: h0, asset: h1 };
                            proof {
                                assert(x.jval()->Obj_0 =~~= v.dv()->Obj_0);
                                assert(x.jval() =~~= v.dv());
                            }
                            Some(x)
                        },
                        _ => {
                            proof {
                                assert forall|x: WithdrawParams| v.dv() != #[trigger] x.jval() by {
                                    if v.dv() == x.jval() {
                                        assert(v.dv()->Obj_0[0].1 == x.supplier.jval());
                                        assert(v.dv()->Obj_0[1].1 == x.asset.jval());
                                    }
                                }
                            }
                            None
                        },
                    }
                } else {
                    proof {
                        assert forall|x: WithdrawParams| v.dv() != #[trigger] x.jval() by {
                            if v.dv() == x.jval() {
                                assert(v.dv()->Obj_0.len() == 2);
                                assert(v.dv()->Obj_0[0].0 == "supplier"@);
                                assert(v.dv()->Obj_0[1].0 == "asset"@);
                            }
                        }
                    }
                    None
                }
            },
            _ => None,
        }
    }
}
/// Withdraws the maximum amount of one denomination.
#[derive(Clone, Debug, PartialEq, Eq)]
pub struct MsgMaxWithDrawParams {
    pub supplier: Addr,
    pub denom: String,
}
impl WireRecord for MsgMaxWithDrawParams {
    open spec fn jval(self) -> JsonSpec {
        JsonSpec::Obj(
            seq![
                ("supplier"@, self.supplier.jval()),
                ("denom"@, self.denom.jval()),
            ],
        )
    }

    proof fn jval_wf(self) {
        self.supplier.jval_wf();
        self.denom.jval_wf();
        assert forall|k: int| 0 <= k < self.jval()->Obj_0.len() implies json_wf(
            #[trigger] self.jval()->Obj_0[k].1,
        ) by {
            if k == 0 {
                assert(json_wf(self.jval()->Obj_0[0].1));
            }
            if k == 1 {
                assert(json_wf(self.jval()->Obj_0[1].1));
            }
        }
    }

    fn build_jval(&self) -> (r: JsonVal) {
        let mut entries: Vec<JsonEntry> = Vec::new();
        entries.push(JsonEntry { key: String::from_str("supplier"), val: self.supplier.build_jval() });
        entries.push(JsonEntry { key: String::from_str("denom"), val: self.denom.build_jval() });
        let ghost ges = entries@;
        let r = JsonVal::Obj(entries);
        proof {
            let dvs = r.dv()->Obj_0;
            assert(dvs.len() == 2);
            assert(dvs[0] == (ges[0].key@, ges[0].val.dv()));
            assert(dvs[1] == (ges[1].key@, ges[1].val.dv()));
            assert(r.dv()->Obj_0 =~~= self.jval()->Obj_0);
            assert(r.dv() =~~= self.jval());
            assert(ges[0].val.wf());
            assert(ges[1].val.wf());
        }
        r
    }

    fn from_jval(v: &JsonVal) -> (r: Option<MsgMaxWithDrawParams>) {
        match v {
            JsonVal::Obj(entries) => {
                let shape = entries.len() == 2 && str_eq(entries[0].key.as_str(), "supplier") && str_eq(entries[1].key.as_str(), "denom");
                proof {
                    let dvs = v.dv()->Obj_0;
                    assert(dvs.len() == entries@.len());
                    if entries@.len() == 2 {
                        assert(dvs[0] == (entries@[0].key@, entries@[0].val.dv()));
                        assert(dvs[1] == (entries@[1].key@, entries@[1].val.dv()));
                    }
                }
                if shape {
                    let g0: Option<Addr> = WireRecord::from_jval(&entries[0].val);
                    let g1: Option<String> = WireRecord::from_jval(&entries[1].val);
                    match (g0, g1) {
                        (Some(h0), Some(h1)) => {
                            let x = MsgMaxWithDrawParams { supplier: h0, denom: h1 };
                            proof {
                                assert(x.jval()->Obj_0 =~~= v.dv()->Obj_0);
                                assert(x.jval() =~~= v.dv());
                            }
                            Some(x)
                        },
                        _ => {
                            proof {
                                assert forall|x: MsgMaxWithDrawParams| v.dv() != #[trigger] x.jval() by {
                                    if v.dv() == x.jval() {
                                        assert(v.dv()->Obj_0[0].1 == x.supplier.jval());
                                        assert(v.dv()->Obj_0[1].1 == x.denom.jval());
                                    }
                                }
                            }
                            None
                        },
                    }
                } else {
                    proof {
                        assert forall|x: MsgMaxWithDrawParams| v.dv() != #[trigger] x.jval() by {
                            if v.dv() == x.jval() {
                                assert(v.dv()->Obj_0.len() == 2);
                                assert(v.dv()->Obj_0[0].0 == "supplier"@);
                                assert(v.dv()->Obj_0[1].0 == "denom"@);
                            }
                        }
                    }
                    None
                }
            },
            _ => None,
        }
    }
}
/// Enables supplied assets as collateral.
#[derive(Clone, Debug, PartialEq, Eq)]
pub struct CollateralizeParams {
    pub borrower: Addr,
    pub asset: Coin,
}
impl WireRecord for CollateralizeParams {
    open spec fn jval(self) -> JsonSpec {
        JsonSpec::Obj(
            seq![
                ("borrower"@, self.borrower.jval()),
                ("asset"@, self.asset.jval()),
            ],
        )
    }

    proof fn jval_wf(self) {
        self.borrower.jval_wf();
        self.asset.jval_wf();
        assert forall|k: int| 0 <= k < self.jval()->Obj_0.len() implies json_wf(
            #[trigger] self.jval()->Obj_0[k].1,
        ) by {
            if k == 0 {
                assert(json_wf(self.jval()->Obj_0[0].1));
            }
            if k == 1 {
                assert(json_wf(self.jval()->Obj_0[1].1));
            }
        }
    }

    fn build_jval(&self) -> (r: JsonVal) {
        let mut entries: Vec<JsonEntry> = Vec::new();
        entries.push(JsonEntry { key: String::from_str("borrower"), val: self.borrower.build_jval() });
        entries.push(JsonEntry { key: String::from_str("asset"), val: self.asset.build_jval() });
        let ghost ges = entries@;
        let r = JsonVal::Obj(entries);
        proof {
            let dvs = r.dv()->Obj_0;
            assert(dvs.len() == 2);
            assert(dvs[0] == (ges[0].key@, ges[0].val.dv()));
            assert(dvs[1] == (ges[1].key@, ges[1].val.dv()));
            assert(r.dv()->Obj_0 =~~= self.jval()->Obj_0);
            assert(r.dv() =~~= self.jval());
            assert(ges[0].val.wf());
            assert(ges[1].val.wf());
        }
        r
    }

    fn from_jval(v: &JsonVal) -> (r: Option<CollateralizeParams>) {
        match v {
            JsonVal::Obj(entries) => {
                let shape = entries.len() == 2 && str_eq(entries[0].key.as_str(), "borrower") && str_eq(entries[1].key.as_str(), "asset");
                proof {
                    let dvs = v.dv()->Obj_0;
                    assert(dvs.len() == entries@.len());
                    if entries@.len() == 2 {
                        assert(dvs[0] == (entries@[0].key@, entries@[0].val.dv()));
                        assert(dvs[1] == (entries@[1].key@, entries@[1].val.dv()));
                    }
                }
                if shape {
                    let g0: Option<Addr> = WireRecord::from_jval(&entries[0].val);
                    let g1: Option<Coin> = WireRecord::from_jval(&entries[1].val);
                    match (g0, g1) {
                        (Some(h0), Some(h1)) => {
                            let x = CollateralizeParams { borrower: h0, asset: h1 };
                            proof {
                                assert(x.jval()->Obj_0 =~~= v.dv()->Obj_0);
                                assert(x.jval() =~~= v.dv());
                            }
                            Some(x)
                        },
                        _ => {
                            proof {
                                assert forall|x: CollateralizeParams| v.dv() != #[trigger] x.jval() by {
                                    if v.dv() == x.jval() {
                                        assert(v.dv()->Obj_0[0].1 == x.borrower.jval());
                                        assert(v.dv()->Obj_0[1].1 == x.asset.jval());
                                    }
                                }
                            }
                            None
                        },
                    }
                } else {
                    proof {
                        assert forall|x: CollateralizeParams| v.dv() != #[trigger] x.jval() by {
                            if v.dv() == x.jval() {
                                assert(v.dv()->Obj_0.len() == 2);
                                assert(v.dv()->Obj_0[0].0 == "borrower"@);
                                assert(v.dv()->Obj_0[1].0 == "asset"@);
                            }
                        }
                    }
                    None
                }
            },
            _ => None,
        }
    }
}
/// Disables assets as collateral.
#[derive(Clone, Debug, PartialEq, Eq)]
pub struct DecollateralizeParams {
    pub borrower: Addr,
    pub asset: Coin,
}
impl WireRecord for DecollateralizeParams {
    open spec fn jval(self) -> JsonSpec {
        JsonSpec::Obj(
            seq![
                ("borrower"@, self.borrower.jval()),
                ("asset"@, self.asset.jval()),
            ],
        )
    }

    proof fn jval_wf(self) {
        self.borrower.jval_wf();
        self.asset.jval_wf();
        assert forall|k: int| 0 <= k < self.jval()->Obj_0.len() implies json_wf(
            #[trigger] self.jval()->Obj_0[k].1,
        ) by {
            if k == 0 {
                assert(json_wf(self.jval()->Obj_0[0].1));
            }
            if k == 1 {
                assert(json_wf(self.jval()->Obj_0[1].1));
            }
        }
    }

    fn build_jval(&self) -> (r: JsonVal) {
        let mut entries: Vec<JsonEntry> = Vec::new();
        entries.push(JsonEntry { key: String::from_str("borrower"), val: self.borrower.build_jval() });
        entries.push(JsonEntry { key: String::from_str("asset"), val: self.asset.build_jval() });
        let ghost ges = entries@;
        let r = JsonVal::Obj(entries);
        proof {
            let dvs = r.dv()->Obj_0;
            assert(dvs.len() == 2);
            assert(dvs[0] == (ges[0].key@, ges[0].val.dv()));
            assert(dvs[1] == (ges[1].key@, ges[1].val.dv()));
            assert(r.dv()->Obj_0 =~~= self.jval()->Obj_0);
            assert(r.dv() =~~= self.jval());
            assert(ges[0].val.wf());
            assert(ges[1].val.wf());
        }
        r
    }

    fn from_jval(v: &JsonVal) -> (r: Option<DecollateralizeParams>) {
        match v {
            JsonVal::Obj(entries) => {
                let shape = entries.len() == 2 && str_eq(entries[0].key.as_str(), "borrower") && str_eq(entries[1].key.as_str(), "asset");
                proof {
                    let dvs = v.dv()->Obj_0;
                    assert(dvs.len() == entries@.len());
                    if entries@.len() == 2 {
                        assert(dvs[0] == (entries@[0].key@, entries@[0].val.dv()));
                        assert(dvs[1] == (entries@[1].key@, entries@[1].val.dv()));
                    }
                }
                if shape {
                    let g0: Option<Addr> = WireRecord::from_jval(&entries[0].val);
                    let g1: Option<Coin> = WireRecord::from_jval(&entries[1].val);
                    match (g0, g1) {
                        (Some(h0), Some(h1)) => {
                            let x = DecollateralizeParams { borrower: h0, asset: h1 };
                            proof {
                                assert(x.jval()->Obj_0 =~~= v.dv()->Obj_0);
                                assert(x.jval() =~~= v.dv());
                            }
                            Some(x)
                        },
                        _ => {
                            proof {
                                assert forall|x: DecollateralizeParams| v.dv() != #[trigger] x.jval() by {
                                    if v.dv() == x.jval() {
                                        assert(v.dv()->Obj_0[0].1 == x.borrower.jval());
                                        assert(v.dv()->Obj_0[1].1 == x.asset.jval());
                                    }
                                }
                            }
                            None
                        },
                    }
                } else {
                    proof {
                        assert forall|x: DecollateralizeParams| v.dv() != #[trigger] x.jval() by {
                            if v.dv() == x.jval() {
                                assert(v.dv()->Obj_0.len() == 2);
                                assert(v.dv()->Obj_0[0].0 == "borrower"@);
                                assert(v.dv()->Obj_0[1].0 == "asset"@);
                            }
                        }
                    }
                    None
                }
            },
            _ => None,
        }
    }
}
/// Borrows assets against collateral.
#[derive(Clone, Debug, PartialEq, Eq)]
pub struct BorrowParams {
    pub borrower: Addr,
    pub asset: Coin,
}
impl WireRecord for BorrowParams {
    open spec fn jval(self) -> JsonSpec {
        JsonSpec::Obj(
            seq![
                ("borrower"@, self.borrower.jval()),
                ("asset"@, self.asset.jval()),
            ],
        )
    }

    proof fn jval_wf(self) {
        self.borrower.jval_wf();
        self.asset.jval_wf();
        assert forall|k: int| 0 <= k < self.jval()->Obj_0.len() implies json_wf(
            #[trigger] self.jval()->Obj_0[k].1,
        ) by {
            if k == 0 {
                assert(json_wf(self.jval()->Obj_0[0].1));
            }
            if k == 1 {
                assert(json_wf(self.jval()->Obj_0[1].1));
            }
        }
    }

    fn build_jval(&self) -> (r: JsonVal) {
        let mut entries: Vec<JsonEntry> = Vec::new();
        entries.push(JsonEntry { key: String::from_str("borrower"), val: self.borrower.build_jval() });
        entries.push(JsonEntry { key: String::from_str("asset"), val: self.asset.build_jval() });
        let ghost ges = entries@;
        let r = JsonVal::Obj(entries);
        proof {
            let dvs = r.dv()->Obj_0;
            assert(dvs.len() == 2);
            assert(dvs[0] == (ges[0].key@, ges[0].val.dv()));
            assert(dvs[1] == (ges[1].key@, ges[1].val.dv()));
            assert(r.dv()->Obj_0 =~~= self.jval()->Obj_0);
            assert(r.dv() =~~= self.jval());
            assert(ges[0].val.wf());
            assert(ges[1].val.wf());
        }
        r
    }

    fn from_jval(v: &JsonVal) -> (r: Option<BorrowParams>) {
        match v {
            JsonVal::Obj(entries) => {
                let shape = entries.len() == 2 && str_eq(entries[0].key.as_str(), "borrower") && str_eq(entries[1].key.as_str(), "asset");
                proof {
                    let dvs = v.dv()->Obj_0;
                    assert(dvs.len() == entries@.len());
                    if entries@.len() == 2 {
                        assert(dvs[0] == (entries@[0].key@, entries@[0].val.dv()));
                        assert(dvs[1] == (entries@[1].key@, entries@[1].val.dv()));
                    }
                }
                if shape {
                    let g0: Option<Addr> = WireRecord::from_jval(&entries[0].val);
                    let g1: Option<Coin> = WireRecord::from_jval(&entries[1].val);
                    match (g0, g1) {
                        (Some(h0), Some(h1)) => {
                            let x = BorrowParams { borrower: h0, asset: h1 };
                            proof {
                                assert(x.jval()->Obj_0 =~~= v.dv()->Obj_0);
                                assert(x.jval() =~~= v.dv());
                            }
                            Some(x)
                        },
                        _ => {
                            proof {
                                assert forall|x: BorrowParams| v.dv() != #[trigger] x.jval() by {
                                    if v.dv() == x.jval() {
                                        assert(v.dv()->Obj_0[0].1 == x.borrower.jval());
                                        assert(v.dv()->Obj_0[1].1 == x.asset.jval());
                                    }
                                }
                            }
                            None
                        },
                    }
                } else {
                    proof {
                        assert forall|x: BorrowParams| v.dv() != #[trigger] x.jval() by {
                            if v.dv() == x.jval() {
                                assert(v.dv()->Obj_0.len() == 2);
                                assert(v.dv()->Obj_0[0].0 == "borrower"@);
                                assert(v.dv()->Obj_0[1].0 == "asset"@);
                            }
                        }
                    }
                    None
                }
            },
            _ => None,
        }
    }
}
/// Borrows the maximum amount of one denomination.
#[derive(Clone, Debug, PartialEq, Eq)]
pub struct MsgMaxBorrowParams {
    pub borrower: Addr,
    pub denom: Coin,
}
impl WireRecord for MsgMaxBorrowParams {
    open spec fn jval(self) -> JsonSpec {
        JsonSpec::Obj(
            seq![
                ("borrower"@, self.borrower.jval()),
                ("denom"@, self.denom.jval()),
            ],
        )
    }

    proof fn jval_wf(self) {
        self.borrower.jval_wf();
        self.denom.jval_wf();
        assert forall|k: int| 0 <= k < self.jval()->Obj_0.len() implies json_wf(
            #[trigger] self.jval()->Obj_0[k].1,
        ) by {
            if k == 0 {
                assert(json_wf(self.jval()->Obj_0[0].1));
            }
            if k == 1 {
                assert(json_wf(self.jval()->Obj_0[1].1));
            }
        }
    }

    fn build_jval(&self) -> (r: JsonVal) {
        let mut entries: Vec<JsonEntry> = Vec::new();
        entries.push(JsonEntry { key: String::from_str("borrower"), val: self.borrower.build_jval() });
        entries.push(JsonEntry { key: String::from_str("denom"), val: self.denom.build_jval() });
        let ghost ges = entries@;
        let r = JsonVal::Obj(entries);
        proof {
            let dvs = r.dv()->Obj_0;
            assert(dvs.len() == 2);
            assert(dvs[0] == (ges[0].key@, ges[0].val.dv()));
            assert(dvs[1] == (ges[1].key@, ges[1].val.dv()));
            assert(r.dv()->Obj_0 =~~= self.jval()->Obj_0);
            assert(r.dv() =~~= self.jval());
            assert(ges[0].val.wf());
            assert(ges[1].val.wf());
        }
        r
    }

    fn from_jval(v: &JsonVal) -> (r: Option<MsgMaxBorrowParams>) {
        match v {
            JsonVal::Obj(entries) => {
                let shape = entries.len() == 2 && str_eq(entries[0].key.as_str(), "borrower") && str_eq(entries[1].key.as_str(), "denom");
                proof {
                    let dvs = v.dv()->Obj_0;
                    assert(dvs.len() == entries@.len());
                    if entries@.len() == 2 {
                        assert(dvs[0] == (entries@[0].key@, entries@[0].val.dv()));
                        assert(dvs[1] == (entries@[1].key@, entries@[1].val.dv()));
                    }
                }
                if shape {
                    let g0: Option<Addr> = WireRecord::from_jval(&entries[0].val);
                    let g1: Option<Coin> = WireRecord::from_jval(&entries[1].val);
                    match (g0, g1) {
                        (Some(h0), Some(h1)) => {
                            let x = MsgMaxBorrowParams { borrower: h0, denom: h1 };
                            proof {
                                assert(x.jval()->Obj_0 =~~= v.dv()->Obj_0);
                                assert(x.jval() =~~= v.dv());
                            }
                            Some(x)
                        },
                        _ => {
                            proof {
                                assert forall|x: MsgMaxBorrowParams| v.dv() != #[trigger] x.jval() by {
                                    if v.dv() == x.jval() {
                                        assert(v.dv()->Obj_0[0].1 == x.borrower.jval());
                                        assert(v.dv()->Obj_0[1].1 == x.denom.jval());
                                    }
                                }
                            }
                            None
                        },
                    }
                } else {
                    proof {
                        assert forall|x: MsgMaxBorrowParams| v.dv() != #[trigger] x.jval() by {
                            if v.dv() == x.jval() {
                                assert(v.dv()->Obj_0.len() == 2);
                                assert(v.dv()->Obj_0[0].0 == "borrower"@);
                                assert(v.dv()->Obj_0[1].0 == "denom"@);
                            }
                        }
                    }
                    None
                }
            },
            _ => None,
        }
    }
}
/// Repays borrowed assets and interest.
#[derive(Clone, Debug, PartialEq, Eq)]
pub struct RepayParams {
    pub borrower: Addr,
    pub asset: Coin,
}
impl WireRecord for RepayParams {
    open spec fn jval(self) -> JsonSpec {
        JsonSpec::Obj(
            seq![
                ("borrower"@, self.borrower.jval()),
                ("asset"@, self.asset.jval()),
            ],
        )
    }

    proof fn jval_wf(self) {
        self.borrower.jval_wf();
        self.asset.jval_wf();
        assert forall|k: int| 0 <= k < self.jval()->Obj_0.len() implies json_wf(
            #[trigger] self.jval()->Obj_0[k].1,
        ) by {
            if k == 0 {
                assert(json_wf(self.jval()->Obj_0[0].1));
            }
            if k == 1 {
                assert(json_wf(self.jval()->Obj_0[1].1));
            }
        }
    }

    fn build_jval(&self) -> (r: JsonVal) {
        let mut entries: Vec<JsonEntry> = Vec::new();
        entries.push(JsonEntry { key: String::from_str("borrower"), val: self.borrower.build_jval() });
        entries.push(JsonEntry { key: String::from_str("asset"), val: self.asset.build_jval() });
        let ghost ges = entries@;
        let r = JsonVal::Obj(entries);
        proof {
            let dvs = r.dv()->Obj_0;
            assert(dvs.len() == 2);
            assert(dvs[0] == (ges[0].key@, ges[0].val.dv()));
            assert(dvs[1] == (ges[1].key@, ges[1].val.dv()));
            assert(r.dv()->Obj_0 =~~= self.jval()->Obj_0);
            assert(r.dv() =~~= self.jval());
            assert(ges[0].val.wf());
            assert(ges[1].val.wf());
        }
        r
    }

    fn from_jval(v: &JsonVal) -> (r: Option<RepayParams>) {
        match v {
            JsonVal::Obj(entries) => {
                let shape = entries.len() == 2 && str_eq(entries[0].key.as_str(), "borrower") && str_eq(entries[1].key.as_str(), "asset");
                proof {
                    let dvs = v.dv()->Obj_0;
                    assert(dvs.len() == entries@.len());
                    if entries@.len() == 2 {
                        assert(dvs[0] == (entries@[0].key@, entries@[0].val.dv()));
                        assert(dvs[1] == (entries@[1].key@, entries@[1].val.dv()));
                    }
                }
                if shape {
                    let g0: Option<Addr> = WireRecord::from_jval(&entries[0].val);
                    let g1: Option<Coin> = WireRecord::from_jval(&entries[1].val);
                    match (g0, g1) {
                        (Some(h0), Some(h1)) => {
                            let x = RepayParams { borrower: h0, asset: h1 };
                            proof {
                                assert(x.jval()->Obj_0 =~~= v.dv()->Obj_0);
                                assert(x.jval() =~~= v.dv());
                            }
                            Some(x)
                        },
                        _ => {
                            proof {
                                assert forall|x: RepayParams| v.dv() != #[trigger] x.jval() by {
                                    if v.dv() == x.jval() {
                                        assert(v.dv()->Obj_0[0].1 == x.borrower.jval());
                                        assert(v.dv()->Obj_0[1].1 == x.asset.jval());
                                    }
                                }
                            }
                            None
                        },
                    }
                } else {
                    proof {
                        assert forall|x: RepayParams| v.dv() != #[trigger] x.jval() by {
                            if v.dv() == x.jval() {
                                assert(v.dv()->Obj_0.len() == 2);
                                assert(v.dv()->Obj_0[0].0 == "borrower"@);
                                assert(v.dv()->Obj_0[1].0 == "asset"@);
                            }
                        }
                    }
                    None
                }
            },
            _ => None,
        }
    }
}
/// Repays another borrower's debt in exchange for collateral.
#[derive(Clone, Debug, PartialEq, Eq)]
pub struct LiquidateParams {
    pub liquidator: Addr,
    pub borrower: Addr,
    pub repayment: Coin,
    pub reward: Coin,
}
impl WireRecord for LiquidateParams {
    open spec fn jval(self) -> JsonSpec {
        JsonSpec::Obj(
            seq![
                ("liquidator"@, self.liquidator.jval()),
                ("borrower"@, self.borrower.jval()),
                ("repayment"@, self.repayment.jval()),
                ("reward"@, self.reward.jval()),
            ],
        )
    }

    proof fn jval_wf(self) {
        self.liquidator.jval_wf();
        self.borrower.jval_wf();
        self.repayment.jval_wf();
        self.reward.jval_wf();
        assert forall|k: int| 0 <= k < self.jval()->Obj_0.len() implies json_wf(
            #[trigger] self.jval()->Obj_0[k].1,
        ) by {
            if k == 0 {
                assert(json_wf(self.jval()->Obj_0[0].1));
            }
            if k == 1 {
                assert(json_wf(self.jval()->Obj_0[1].1));
            }
            if k == 2 {
                assert(json_wf(self.jval()->Obj_0[2].1));
            }
            if k == 3 {
                assert(json_wf(self.jval()->Obj_0[3].1));
            }
        }
    }

    fn build_jval(&self) -> (r: JsonVal) {
        let mut entries: Vec<JsonEntry> = Vec::new();
        entries.push(JsonEntry { key: String::from_str("liquidator"), val: self.liquidator.build_jval() });
        entries.push(JsonEntry { key: String::from_str("borrower"), val: self.borrower.build_jval() });
        entries.push(JsonEntry { key: String::from_str("repayment"), val: self.repayment.build_jval() });
        entries.push(JsonEntry { key: String::from_str("reward"), val: self.reward.build_jval() });
        let ghost ges = entries@;
        let r = JsonVal::Obj(entries);
        proof {
            let dvs = r.dv()->Obj_0;
            assert(dvs.len() == 4);
            assert(dvs[0] == (ges[0].key@, ges[0].val.dv()));
            assert(dvs[1] == (ges[1].key@, ges[1].val.dv()));
            assert(dvs[2] == (ges[2].key@, ges[2].val.dv()));
            assert(dvs[3] == (ges[3].key@, ges[3].val.dv()));
            assert(r.dv()->Obj_0 =~~= self.jval()->Obj_0);
            assert(r.dv() =~~= self.jval());
            assert(ges[0].val.wf());
            assert(ges[1].val.wf());
            assert(ges[2].val.wf());
            assert(ges[3].val.wf());
        }
        r
    }

    fn from_jval(v: &JsonVal) -> (r: Option<LiquidateParams>) {
        match v {
            JsonVal::Obj(entries) => {
                let shape = entries.len() == 4 && str_eq(entries[0].key.as_str(), "liquidator") && str_eq(entries[1].key.as_str(), "borrower") && str_eq(entries[2].key.as_str(), "repayment") && str_eq(entries[3].key.as_str(), "reward");
                proof {
                    let dvs = v.dv()->Obj_0;
                    assert(dvs.len() == entries@.len());
                    if entries@.len() == 4 {
                        assert(dvs[0] == (entries@[0].key@, entries@[0].val.dv()));
                        assert(dvs[1] == (entries@[1].key@, entries@[1].val.dv()));
                        assert(dvs[2] == (entries@[2].key@, entries@[2].val.dv()));
                        assert(dvs[3] == (entries@[3].key@, entries@[3].val.dv()));
                    }
                }
                if shape {
                    let g0: Option<Addr> = WireRecord::from_jval(&entries[0].val);
                    let g1: Option<Addr> = WireRecord::from_jval(&entries[1].val);
                    let g2: Option<Coin> = WireRecord::from_jval(&entries[2].val);
                    let g3: Option<Coin> = WireRecord::from_jval(&entries[3].val);
                    match (g0, g1, g2, g3) {
                        (Some(h0), Some(h1), Some(h2), Some(h3)) => {
                            let x = LiquidateParams { liquidator: h0, borrower: h1, repayment: h2, reward: h3 };
                            proof {
                                assert(x.jval()->Obj_0 =~~= v.dv()->Obj_0);
                                assert(x.jval() =~~= v.dv());
                            }
                            Some(x)
                        },
                        _ => {
                            proof {
                                assert forall|x: LiquidateParams| v.dv() != #[trigger] x.jval() by {
                                    if v.dv() == x.jval() {
                                        assert(v.dv()->Obj_0[0].1 == x.liquidator.jval());
                                        assert(v.dv()->Obj_0[1].1 == x.borrower.jval());
                                        assert(v.dv()->Obj_0[2].1 == x.repayment.jval());
                                        assert(v.dv()->Obj_0[3].1 == x.reward.jval());
                                    }
                                }
                            }
                            None
                        },
                    }
                } else {
                    proof {
                        assert forall|x: LiquidateParams| v.dv() != #[trigger] x.jval() by {
                            if v.dv() == x.jval() {
                                assert(v.dv()->Obj_0.len() == 4);
                                assert(v.dv()->Obj_0[0].0 == "liquidator"@);
                                assert(v.dv()->Obj_0[1].0 == "borrower"@);
                                assert(v.dv()->Obj_0[2].0 == "repayment"@);
                                assert(v.dv()->Obj_0[3].0 == "reward"@);
                            }
                        }
                    }
                    None
                }
            },
            _ => None,
        }
    }
}
/// Supplies assets and enables them as collateral in one step.
#[derive(Clone, Debug, PartialEq, Eq)]
pub struct SupplyCollateralParams {
    pub supplier: Addr,
    pub asset: Coin,
}
impl WireRecord for SupplyCollateralParams {
    open spec fn jval(self) -> JsonSpec {
        JsonSpec::Obj(
            seq![
                ("supplier"@, self.supplier.jval()),
                ("asset"@, self.asset.jval()),
            ],
        )
    }

    proof fn jval_wf(self) {
        self.supplier.jval_wf();
        self.asset.jval_wf();
        assert forall|k: int| 0 <= k < self.jval()->Obj_0.len() implies json_wf(
            #[trigger] self.jval()->Obj_0[k].1,
        ) by {
            if k == 0 {
                assert(json_wf(self.jval()->Obj_0[0].1));
            }
            if k == 1 {
                assert(json_wf(self.jval()->Obj_0[1].1));
            }
        }
    }

    fn build_jval(&self) -> (r: JsonVal) {
        let mut entries: Vec<JsonEntry> = Vec::new();
        entries.push(JsonEntry { key: String::from_str("supplier"), val: self.supplier.build_jval() });
        entries.push(JsonEntry { key: String::from_str("asset"), val: self.asset.build_jval() });
        let ghost ges = entries@;
        let r = JsonVal::Obj(entries);
        proof {
            let dvs = r.dv()->Obj_0;
            assert(dvs.len() == 2);
            assert(dvs[0] == (ges[0].key@, ges[0].val.dv()));
            assert(dvs[1] == (ges[1].key@, ges[1].val.dv()));
            assert(r.dv()->Obj_0 =~~= self.jval()->Obj_0);
            assert(r.dv() =~~= self.jval());
            assert(ges[0].val.wf());
            assert(ges[1].val.wf());
        }
        r
    }

    fn from_jval(v: &JsonVal) -> (r: Option<SupplyCollateralParams>) {
        match v {
            JsonVal::Obj(entries) => {
                let shape = entries.len() == 2 && str_eq(entries[0].key.as_str(), "supplier") && str_eq(entries[1].key.as_str(), "asset");
                proof {
                    let dvs = v.dv()->Obj_0;
                    assert(dvs.len() == entries@.len());
                    if entries@.len() == 2 {
                        assert(dvs[0] == (entries@[0].key@, entries@[0].val.dv()));
                        assert(dvs[1] == (entries@[1].key@, entries@[1].val.dv()));
                    }
                }
                if shape {
                    let g0: Option<Addr> = WireRecord::from_jval(&entries[0].val);
                    let g1: Option<Coin> = WireRecord::from_jval(&entries[1].val);
                    match (g0, g1) {
                        (Some(h0), Some(h1)) => {
                            let x = SupplyCollateralParams { supplier: h0, asset: h1 };
                            proof {
                                assert(x.jval()->Obj_0 =~~= v.dv()->Obj_0);
                                assert(x.jval() =~~= v.dv());
                            }
                            Some(x)
                        },
                        _ => {
                            proof {
                                assert forall|x: SupplyCollateralParams| v.dv() != #[trigger] x.jval() by {
                                    if v.dv() == x.jval() {
                                        assert(v.dv()->Obj_0[0].1 == x.supplier.jval());
                                        assert(v.dv()->Obj_0[1].1 == x.asset.jval());
                                    }
                                }
                            }
                            None
                        },
                    }
                } else {
                    proof {
                        assert forall|x: SupplyCollateralParams| v.dv() != #[trigger] x.jval() by {
                            if v.dv() == x.jval() {
                                assert(v.dv()->Obj_0.len() == 2);
                                assert(v.dv()->Obj_0[0].0 == "supplier"@);
                                assert(v.dv()->Obj_0[1].0 == "asset"@);
                            }
                        }
                    }
                    None
                }
            },
            _ => None,
        }
    }
}
/// Every message the leverage module group accepts, tagged by kind.
#[derive(Clone, Debug, PartialEq, Eq)]
pub enum UmeeMsgLeverage {
    Supply(SupplyParams),
    Withdraw(WithdrawParams),
    MaxWithDraw(MsgMaxWithDrawParams),
    Collateralize(CollateralizeParams),
    Decollateralize(DecollateralizeParams),
    Borrow(BorrowParams),
    MaxBorrow(MsgMaxBorrowParams),
    Repay(RepayParams),
    Liquidate(LiquidateParams),
    SupplyCollateral(SupplyCollateralParams),
}
/// Length and distinguishing characters of every variant key of the
/// wire shape.
proof fn lemma_umee_msg_leverage_keys()
    ensures
        "supply"@.len() == 6,
        "withdraw"@.len() == 8,
        "max_with_draw"@.len() == 13,
        "collateralize"@.len() == 13,
        "decollateralize"@.len() == 15,
        "borrow"@.len() == 6,
        "max_borrow"@.len() == 10,
        "repay"@.len() == 5,
        "liquidate"@.len() == 9,
        "supply_collateral"@.len() == 17,
        "borrow"@[0] == 'b',
        "collateralize"@[0] == 'c',
        "decollateralize"@[0] == 'd',
        "liquidate"@[0] == 'l',
        "max_borrow"@[0] == 'm',
        "max_with_draw"@[0] == 'm',
        "repay"@[0] == 'r',
        "supply"@[0] == 's',
        "supply_collateral"@[0] == 's',
        "withdraw"@[0] == 'w',
{
    reveal_strlit("supply");
    assert("supply"@ =~= seq!['s', 'u', 'p', 'p', 'l', 'y']);
    reveal_strlit("withdraw");
    assert("withdraw"@ =~= seq!['w', 'i', 't', 'h', 'd', 'r', 'a', 'w']);
    reveal_strlit("max_with_draw");
    assert("max_with_draw"@ =~= seq!['m', 'a', 'x', '_', 'w', 'i', 't', 'h', '_', 'd', 'r', 'a', 'w']);
    reveal_strlit("collateralize");
    assert("collateralize"@ =~= seq!['c', 'o', 'l', 'l', 'a', 't', 'e', 'r', 'a', 'l', 'i', 'z', 'e']);
    reveal_strlit("decollateralize");
    assert("decollateralize"@ =~= seq!['d', 'e', 'c', 'o', 'l', 'l', 'a', 't', 'e', 'r', 'a', 'l', 'i', 'z', 'e']);
    reveal_strlit("borrow");
    assert("borrow"@ =~= seq!['b', 'o', 'r', 'r', 'o', 'w']);
    reveal_strlit("max_borrow");
    assert("max_borrow"@ =~= seq!['m', 'a', 'x', '_', 'b', 'o', 'r', 'r', 'o', 'w']);
    reveal_strlit("repay");
    assert("repay"@ =~= seq!['r', 'e', 'p', 'a', 'y']);
    reveal_strlit("liquidate");
    assert("liquidate"@ =~= seq!['l', 'i', 'q', 'u', 'i', 'd', 'a', 't', 'e']);
    reveal_strlit("supply_collateral");
    assert("supply_collateral"@ =~= seq!['s', 'u', 'p', 'p', 'l', 'y', '_', 'c', 'o', 'l', 'l', 'a', 't', 'e', 'r', 'a', 'l']);
}

/// Every value's wire record is a single-entry object.
proof fn lemma_umee_msg_leverage_shape(x: UmeeMsgLeverage)
    ensures
        x.jval() is Obj,
        x.jval()->Obj_0.len() == 1,
{
    match x {
        UmeeMsgLeverage::Supply(q) => {
            assert(x.jval()->Obj_0.len() == 1);
        },
        UmeeMsgLeverage::Withdraw(q) => {
            assert(x.jval()->Obj_0.len() == 1);
        },
        UmeeMsgLeverage::MaxWithDraw(q) => {
            assert(x.jval()->Obj_0.len() == 1);
        },
        UmeeMsgLeverage::Collateralize(q) => {
            assert(x.jval()->Obj_0.len() == 1);
        },
        UmeeMsgLeverage::Decollateralize(q) => {
            assert(x.jval()->Obj_0.len() == 1);
        },
        UmeeMsgLeverage::Borrow(q) => {
            assert(x.jval()->Obj_0.len() == 1);
        },
        UmeeMsgLeverage::MaxBorrow(q) => {
            assert(x.jval()->Obj_0.len() == 1);
        },
        UmeeMsgLeverage::Repay(q) => {
            assert(x.jval()->Obj_0.len() == 1);
        },
        UmeeMsgLeverage::Liquidate(q) => {
            assert(x.jval()->Obj_0.len() == 1);
        },
        UmeeMsgLeverage::SupplyCollateral(q) => {
            assert(x.jval()->Obj_0.len() == 1);
        },
    }
}

/// A value whose wire record is this single entry is the variant the
/// entry's key names, and the entry's payload is that variant's.
proof fn lemma_umee_msg_leverage_tag(x: UmeeMsgLeverage, e: (Seq<char>, JsonSpec))
    requires
        JsonSpec::Obj(seq![e]) == x.jval(),
    ensures
        ({
            ||| (x matches UmeeMsgLeverage::Supply(q) && e == ("supply"@, q.jval()))
            ||| (x matches UmeeMsgLeverage::Withdraw(q) && e == ("withdraw"@, q.jval()))
            ||| (x matches UmeeMsgLeverage::MaxWithDraw(q) && e == ("max_with_draw"@, q.jval()))
            ||| (x matches UmeeMsgLeverage::Collateralize(q) && e == ("collateralize"@, q.jval()))
            ||| (x matches UmeeMsgLeverage::Decollateralize(q) && e == ("decollateralize"@, q.jval()))
            ||| (x matches UmeeMsgLeverage::Borrow(q) && e == ("borrow"@, q.jval()))
            ||| (x matches UmeeMsgLeverage::MaxBorrow(q) && e == ("max_borrow"@, q.jval()))
            ||| (x matches UmeeMsgLeverage::Repay(q) && e == ("repay"@, q.jval()))
            ||| (x matches UmeeMsgLeverage::Liquidate(q) && e == ("liquidate"@, q.jval()))
            ||| (x matches UmeeMsgLeverage::SupplyCollateral(q) && e == ("supply_collateral"@, q.jval()))
        }),
{
    match x {
        UmeeMsgLeverage::Supply(q) => {
            assert(x.jval()->Obj_0[0] == ("supply"@, q.jval()));
            assert(e == ("supply"@, q.jval()));
        },
        UmeeMsgLeverage::Withdraw(q) => {
            assert(x.jval()->Obj_0[0] == ("withdraw"@, q.jval()));
            assert(e == ("withdraw"@, q.jval()));
        },
        UmeeMsgLeverage::MaxWithDraw(q) => {
            assert(x.jval()->Obj_0[0] == ("max_with_draw"@, q.jval()));
            assert(e == ("max_with_draw"@, q.jval()));
        },
        UmeeMsgLeverage::Collateralize(q) => {
            assert(x.jval()->Obj_0[0] == ("collateralize"@, q.jval()));
            assert(e == ("collateralize"@, q.jval()));
        },
        UmeeMsgLeverage::Decollateralize(q) => {
            assert(x.jval()->Obj_0[0] == ("decollateralize"@, q.jval()));
            assert(e == ("decollateralize"@, q.jval()));
        },
        UmeeMsgLeverage::Borrow(q) => {
            assert(x.jval()->Obj_0[0] == ("borrow"@, q.jval()));
            assert(e == ("borrow"@, q.jval()));
        },
        UmeeMsgLeverage::MaxBorrow(q) => {
            assert(x.jval()->Obj_0[0] == ("max_borrow"@, q.jval()));
            assert(e == ("max_borrow"@, q.jval()));
        },
        UmeeMsgLeverage::Repay(q) => {
            assert(x.jval()->Obj_0[0] == ("repay"@, q.jval()));
            assert(e == ("repay"@, q.jval()));
        },
        UmeeMsgLeverage::Liquidate(q) => {
            assert(x.jval()->Obj_0[0] == ("liquidate"@, q.jval()));
            assert(e == ("liquidate"@, q.jval()));
        },
        UmeeMsgLeverage::SupplyCollateral(q) => {
            assert(x.jval()->Obj_0[0] == ("supply_collateral"@, q.jval()));
            assert(e == ("supply_collateral"@, q.jval()));
        },
    }
}

/// A single-entry wire shape under this key decodes only through its
/// own payload type.
proof fn lemma_umee_msg_leverage_reject_supply(e: (Seq<char>, JsonSpec))
    requires
        e.0 == "supply"@,
        forall|y: SupplyParams| e.1 != #[trigger] y.jval(),
    ensures
        forall|x: UmeeMsgLeverage| JsonSpec::Obj(seq![e]) != #[trigger] x.jval(),
{
    lemma_umee_msg_leverage_keys();
    assert forall|x: UmeeMsgLeverage| JsonSpec::Obj(seq![e]) != #[trigger] x.jval() by {
        if JsonSpec::Obj(seq![e]) == x.jval() {
            lemma_umee_msg_leverage_tag(x, e);
            match x {
                UmeeMsgLeverage::Supply(q) => {
                    assert(e.1 == q.jval());
                },
                _ => {},
            }
        }
    }
}

/// A single-entry wire shape under this key decodes only through its
/// own payload type.
proof fn lemma_umee_msg_leverage_reject_withdraw(e: (Seq<char>, JsonSpec))
    requires
        e.0 == "withdraw"@,
        forall|y: WithdrawParams| e.1 != #[trigger] y.jval(),
    ensures
        forall|x: UmeeMsgLeverage| JsonSpec::Obj(seq![e]) != #[trigger] x.jval(),
{
    lemma_umee_msg_leverage_keys();
    assert forall|x: UmeeMsgLeverage| JsonSpec::Obj(seq![e]) != #[trigger] x.jval() by {
        if JsonSpec::Obj(seq![e]) == x.jval() {
            lemma_umee_msg_leverage_tag(x, e);
            match x {
                UmeeMsgLeverage::Withdraw(q) => {
                    assert(e.1 == q.jval());
                },
                _ => {},
            }
        }
    }
}

/// A single-entry wire shape under this key decodes only through its
/// own payload type.
proof fn lemma_umee_msg_leverage_reject_max_with_draw(e: (Seq<char>, JsonSpec))
    requires
        e.0 == "max_with_draw"@,
        forall|y: MsgMaxWithDrawParams| e.1 != #[trigger] y.jval(),
    ensures
        forall|x: UmeeMsgLeverage| JsonSpec::Obj(seq![e]) != #[trigger] x.jval(),
{
    lemma_umee_msg_leverage_keys();
    assert forall|x: UmeeMsgLeverage| JsonSpec::Obj(seq![e]) != #[trigger] x.jval() by {
        if JsonSpec::Obj(seq![e]) == x.jval() {
            lemma_umee_msg_leverage_tag(x, e);
            match x {
                UmeeMsgLeverage::MaxWithDraw(q) => {
                    assert(e.1 == q.jval());
                },
                _ => {},
            }
        }
    }
}

/// A single-entry wire shape under this key decodes only through its
/// own payload type.
proof fn lemma_umee_msg_leverage_reject_collateralize(e: (Seq<char>, JsonSpec))
    requires
        e.0 == "collateralize"@,
        forall|y: CollateralizeParams| e.1 != #[trigger] y.jval(),
    ensures
        forall|x: UmeeMsgLeverage| JsonSpec::Obj(seq![e]) != #[trigger] x.jval(),
{
    lemma_umee_msg_leverage_keys();
    assert forall|x: UmeeMsgLeverage| JsonSpec::Obj(seq![e]) != #[trigger] x.jval() by {
        if JsonSpec::Obj(seq![e]) == x.jval() {
            lemma_umee_msg_leverage_tag(x, e);
            match x {
                UmeeMsgLeverage::Collateralize(q) => {
                    assert(e.1 == q.jval());
                },
                _ => {},
            }
        }
    }
}

/// A single-entry wire shape under this key decodes only through its
/// own payload type.
proof fn lemma_umee_msg_leverage_reject_decollateralize(e: (Seq<char>, JsonSpec))
    requires
        e.0 == "decollateralize"@,
        forall|y: DecollateralizeParams| e.1 != #[trigger] y.jval(),
    ensures
        forall|x: UmeeMsgLeverage| JsonSpec::Obj(seq![e]) != #[trigger] x.jval(),
{
    lemma_umee_msg_leverage_keys();
    assert forall|x: UmeeMsgLeverage| JsonSpec::Obj(seq![e]) != #[trigger] x.jval() by {
        if JsonSpec::Obj(seq![e]) == x.jval() {
            lemma_umee_msg_leverage_tag(x, e);
            match x {
                UmeeMsgLeverage::Decollateralize(q) => {
                    assert(e.1 == q.jval());
                },
                _ => {},
            }
        }
    }
}

/// A single-entry wire shape under this key decodes only through its
/// own payload type.
proof fn lemma_umee_msg_leverage_reject_borrow(e: (Seq<char>, JsonSpec))
    requires
        e.0 == "borrow"@,
        forall|y: BorrowParams| e.1 != #[trigger] y.jval(),
    ensures
        forall|x: UmeeMsgLeverage| JsonSpec::Obj(seq![e]) != #[trigger] x.jval(),
{
    lemma_umee_msg_leverage_keys();
    assert forall|x: UmeeMsgLeverage| JsonSpec::Obj(seq![e]) != #[trigger] x.jval() by {
        if JsonSpec::Obj(seq![e]) == x.jval() {
            lemma_umee_msg_leverage_tag(x, e);
            match x {
                UmeeMsgLeverage::Borrow(q) => {
                    assert(e.1 == q.jval());
                },
                _ => {},
            }
        }
    }
}

/// A single-entry wire shape under this key decodes only through its
/// own payload type.
proof fn lemma_umee_msg_leverage_reject_max_borrow(e: (Seq<char>, JsonSpec))
    requires
        e.0 == "max_borrow"@,
        forall|y: MsgMaxBorrowParams| e.1 != #[trigger] y.jval(),
    ensures
        forall|x: UmeeMsgLeverage| JsonSpec::Obj(seq![e]) != #[trigger] x.jval(),
{
    lemma_umee_msg_leverage_keys();
    assert forall|x: UmeeMsgLeverage| JsonSpec::Obj(seq![e]) != #[trigger] x.jval() by {
        if JsonSpec::Obj(seq![e]) == x.jval() {
            lemma_umee_msg_leverage_tag(x, e);
            match x {
                UmeeMsgLeverage::MaxBorrow(q) => {
                    assert(e.1 == q.jval());
                },
                _ => {},
            }
        }
    }
}

/// A single-entry wire shape under this key decodes only through its
/// own payload type.
proof fn lemma_umee_msg_leverage_reject_repay(e: (Seq<char>, JsonSpec))
    requires
        e.0 == "repay"@,
        forall|y: RepayParams| e.1 != #[trigger] y.jval(),
    ensures
        forall|x: UmeeMsgLeverage| JsonSpec::Obj(seq![e]) != #[trigger] x.jval(),
{
    lemma_umee_msg_leverage_keys();
    assert forall|x: UmeeMsgLeverage| JsonSpec::Obj(seq![e]) != #[trigger] x.jval() by {
        if JsonSpec::Obj(seq![e]) == x.jval() {
            lemma_umee_msg_leverage_tag(x, e);
            match x {
                UmeeMsgLeverage::Repay(q) => {
                    assert(e.1 == q.jval());
                },
                _ => {},
            }
        }
    }
}

/// A single-entry wire shape under this key decodes only through its
/// own payload type.
proof fn lemma_umee_msg_leverage_reject_liquidate(e: (Seq<char>, JsonSpec))
    requires
        e.0 == "liquidate"@,
        forall|y: LiquidateParams| e.1 != #[trigger] y.jval(),
    ensures
        forall|x: UmeeMsgLeverage| JsonSpec::Obj(seq![e]) != #[trigger] x.jval(),
{
    lemma_umee_msg_leverage_keys();
    assert forall|x: UmeeMsgLeverage| JsonSpec::Obj(seq![e]) != #[trigger] x.jval() by {
        if JsonSpec::Obj(seq![e]) == x.jval() {
            lemma_umee_msg_leverage_tag(x, e);
            match x {
                UmeeMsgLeverage::Liquidate(q) => {
                    assert(e.1 == q.jval());
                },
                _ => {},
            }
        }
    }
}

/// A single-entry wire shape under this key decodes only through its
/// own payload type.
proof fn lemma_umee_msg_leverage_reject_supply_collateral(e: (Seq<char>, JsonSpec))
    requires
        e.0 == "supply_collateral"@,
        forall|y: SupplyCollateralParams| e.1 != #[trigger] y.jval(),
    ensures
        forall|x: UmeeMsgLeverage| JsonSpec::Obj(seq![e]) != #[trigger] x.jval(),
{
    lemma_umee_msg_leverage_keys();
    assert forall|x: UmeeMsgLeverage| JsonSpec::Obj(seq![e]) != #[trigger] x.jval() by {
        if JsonSpec::Obj(seq![e]) == x.jval() {
            lemma_umee_msg_leverage_tag(x, e);
            match x {
                UmeeMsgLeverage::SupplyCollateral(q) => {
                    assert(e.1 == q.jval());
                },
                _ => {},
            }
        }
    }
}

/// A single-entry wire shape under an unknown key decodes to nothing.
proof fn lemma_umee_msg_leverage_reject_other(e: (Seq<char>, JsonSpec))
    requires
        e.0 != "supply"@,
        e.0 != "withdraw"@,
        e.0 != "max_with_draw"@,
        e.0 != "collateralize"@,
        e.0 != "decollateralize"@,
        e.0 != "borrow"@,
        e.0 != "max_borrow"@,
        e.0 != "repay"@,
        e.0 != "liquidate"@,
        e.0 != "supply_collateral"@,
    ensures
        forall|x: UmeeMsgLeverage| JsonSpec::Obj(seq![e]) != #[trigger] x.jval(),
{
    assert forall|x: UmeeMsgLeverage| JsonSpec::Obj(seq![e]) != #[trigger] x.jval() by {
        if JsonSpec::Obj(seq![e]) == x.jval() {
            lemma_umee_msg_leverage_tag(x, e);
        }
    }
}

impl WireRecord for UmeeMsgLeverage {
    open spec fn jval(self) -> JsonSpec {
        match self {
            UmeeMsgLeverage::Supply(p) => JsonSpec::Obj(seq![("supply"@, p.jval())]),
            UmeeMsgLeverage::Withdraw(p) => JsonSpec::Obj(seq![("withdraw"@, p.jval())]),
            UmeeMsgLeverage::MaxWithDraw(p) => JsonSpec::Obj(seq![("max_with_draw"@, p.jval())]),
            UmeeMsgLeverage::Collateralize(p) => JsonSpec::Obj(seq![("collateralize"@, p.jval())]),
            UmeeMsgLeverage::Decollateralize(p) => JsonSpec::Obj(seq![("decollateralize"@, p.jval())]),
            UmeeMsgLeverage::Borrow(p) => JsonSpec::Obj(seq![("borrow"@, p.jval())]),
            UmeeMsgLeverage::MaxBorrow(p) => JsonSpec::Obj(seq![("max_borrow"@, p.jval())]),
            UmeeMsgLeverage::Repay(p) => JsonSpec::Obj(seq![("repay"@, p.jval())]),
            UmeeMsgLeverage::Liquidate(p) => JsonSpec::Obj(seq![("liquidate"@, p.jval())]),
            UmeeMsgLeverage::SupplyCollateral(p) => JsonSpec::Obj(seq![("supply_collateral"@, p.jval())]),
        }
    }

    proof fn jval_wf(self) {
        match self {
            UmeeMsgLeverage::Supply(p) => {
                p.jval_wf();
                assert forall|k: int| 0 <= k < self.jval()->Obj_0.len() implies json_wf(
                    #[trigger] self.jval()->Obj_0[k].1,
                ) by {
                    assert(json_wf(self.jval()->Obj_0[0].1));
                }
            },
            UmeeMsgLeverage::Withdraw(p) => {
                p.jval_wf();
                assert forall|k: int| 0 <= k < self.jval()->Obj_0.len() implies json_wf(
                    #[trigger] self.jval()->Obj_0[k].1,
                ) by {
                    assert(json_wf(self.jval()->Obj_0[0].1));
                }
            },
            UmeeMsgLeverage::MaxWithDraw(p) => {
                p.jval_wf();
                assert forall|k: int| 0 <= k < self.jval()->Obj_0.len() implies json_wf(
                    #[trigger] self.jval()->Obj_0[k].1,
                ) by {
                    assert(json_wf(self.jval()->Obj_0[0].1));
                }
            },
            UmeeMsgLeverage::Collateralize(p) => {
                p.jval_wf();
                assert forall|k: int| 0 <= k < self.jval()->Obj_0.len() implies json_wf(
                    #[trigger] self.jval()->Obj_0[k].1,
                ) by {
                    assert(json_wf(self.jval()->Obj_0[0].1));
                }
            },
            UmeeMsgLeverage::Decollateralize(p) => {
                p.jval_wf();
                assert forall|k: int| 0 <= k < self.jval()->Obj_0.len() implies json_wf(
                    #[trigger] self.jval()->Obj_0[k].1,
                ) by {
                    assert(json_wf(self.jval()->Obj_0[0].1));
                }
            },
            UmeeMsgLeverage::Borrow(p) => {
                p.jval_wf();
                assert forall|k: int| 0 <= k < self.jval()->Obj_0.len() implies json_wf(
                    #[trigger] self.jval()->Obj_0[k].1,
                ) by {
                    assert(json_wf(self.jval()->Obj_0[0].1));
                }
            },
            UmeeMsgLeverage::MaxBorrow(p) => {
                p.jval_wf();
                assert forall|k: int| 0 <= k < self.jval()->Obj_0.len() implies json_wf(
                    #[trigger] self.jval()->Obj_0[k].1,
                ) by {
                    assert(json_wf(self.jval()->Obj_0[0].1));
                }
            },
            UmeeMsgLeverage::Repay(p) => {
                p.jval_wf();
                assert forall|k: int| 0 <= k < self.jval()->Obj_0.len() implies json_wf(
                    #[trigger] self.jval()->Obj_0[k].1,
                ) by {
                    assert(json_wf(self.jval()->Obj_0[0].1));
                }
            },
            UmeeMsgLeverage::Liquidate(p) => {
                p.jval_wf();
                assert forall|k: int| 0 <= k < self.jval()->Obj_0.len() implies json_wf(
                    #[trigger] self.jval()->Obj_0[k].1,
                ) by {
                    assert(json_wf(self.jval()->Obj_0[0].1));
                }
            },
            UmeeMsgLeverage::SupplyCollateral(p) => {
                p.jval_wf();
                assert forall|k: int| 0 <= k < self.jval()->Obj_0.len() implies json_wf(
                    #[trigger] self.jval()->Obj_0[k].1,
                ) by {
                    assert(json_wf(self.jval()->Obj_0[0].1));
                }
            },
        }
    }

    fn build_jval(&self) -> (r: JsonVal) {
        match self {
            UmeeMsgLeverage::Supply(p) => {
                let mut entries: Vec<JsonEntry> = Vec::new();
                entries.push(JsonEntry { key: String::from_str("supply"), val: p.build_jval() });
                let ghost ges = entries@;
                let r = JsonVal::Obj(entries);
                proof {
                    assert(r.dv()->Obj_0[0] == (ges[0].key@, ges[0].val.dv()));
                    assert(r.dv()->Obj_0 =~~= self.jval()->Obj_0);
                    assert(r.dv() =~~= self.jval());
                    assert(ges[0].val.wf());
                }
                r
            },
            UmeeMsgLeverage::Withdraw(p) => {
                let mut entries: Vec<JsonEntry> = Vec::new();
                entries.push(JsonEntry { key: String::from_str("withdraw"), val: p.build_jval() });
                let ghost ges = entries@;
                let r = JsonVal::Obj(entries);
                proof {
                    assert(r.dv()->Obj_0[0] == (ges[0].key@, ges[0].val.dv()));
                    assert(r.dv()->Obj_0 =~~= self.jval()->Obj_0);
                    assert(r.dv() =~~= self.jval());
                    assert(ges[0].val.wf());
                }
                r
            },
            UmeeMsgLeverage::MaxWithDraw(p) => {
                let mut entries: Vec<JsonEntry> = Vec::new();
                entries.push(JsonEntry { key: String::from_str("max_with_draw"), val: p.build_jval() });
                let ghost ges = entries@;
                let r = JsonVal::Obj(entries);
                proof {
                    assert(r.dv()->Obj_0[0] == (ges[0].key@, ges[0].val.dv()));
                    assert(r.dv()->Obj_0 =~~= self.jval()->Obj_0);
                    assert(r.dv() =~~= self.jval());
                    assert(ges[0].val.wf());
                }
                r
            },
            UmeeMsgLeverage::Collateralize(p) => {
                let mut entries: Vec<JsonEntry> = Vec::new();
                entries.push(JsonEntry { key: String::from_str("collateralize"), val: p.build_jval() });
                let ghost ges = entries@;
                let r = JsonVal::Obj(entries);
                proof {
                    assert(r.dv()->Obj_0[0] == (ges[0].key@, ges[0].val.dv()));
                    assert(r.dv()->Obj_0 =~~= self.jval()->Obj_0);
                    assert(r.dv() =~~= self.jval());
                    assert(ges[0].val.wf());
                }
                r
            },
            UmeeMsgLeverage::Decollateralize(p) => {
                let mut entries: Vec<JsonEntry> = Vec::new();
                entries.push(JsonEntry { key: String::from_str("decollateralize"), val: p.build_jval() });
                let ghost ges = entries@;
                let r = JsonVal::Obj(entries);
                proof {
                    assert(r.dv()->Obj_0[0] == (ges[0].key@, ges[0].val.dv()));
                    assert(r.dv()->Obj_0 =~~= self.jval()->Obj_0);
                    assert(r.dv() =~~= self.jval());
                    assert(ges[0].val.wf());
                }
                r
            },
            UmeeMsgLeverage::Borrow(p) => {
                let mut entries: Vec<JsonEntry> = Vec::new();
                entries.push(JsonEntry { key: String::from_str("borrow"), val: p.build_jval() });
                let ghost ges = entries@;
                let r = JsonVal::Obj(entries);
                proof {
                    assert(r.dv()->Obj_0[0] == (ges[0].key@, ges[0].val.dv()));
                    assert(r.dv()->Obj_0 =~~= self.jval()->Obj_0);
                    assert(r.dv() =~~= self.jval());
                    assert(ges[0].val.wf());
                }
                r
            },
            UmeeMsgLeverage::MaxBorrow(p) => {
                let mut entries: Vec<JsonEntry> = Vec::new();
                entries.push(JsonEntry { key: String::from_str("max_borrow"), val: p.build_jval() });
                let ghost ges = entries@;
                let r = JsonVal::Obj(entries);
                proof {
                    assert(r.dv()->Obj_0[0] == (ges[0].key@, ges[0].val.dv()));
                    assert(r.dv()->Obj_0 =~~= self.jval()->Obj_0);
                    assert(r.dv() =~~= self.jval());
                    assert(ges[0].val.wf());
                }
                r
            },
            UmeeMsgLeverage::Repay(p) => {
                let mut entries: Vec<JsonEntry> = Vec::new();
                entries.push(JsonEntry { key: String::from_str("repay"), val: p.build_jval() });
                let ghost ges = entries@;
                let r = JsonVal::Obj(entries);
                proof {
                    assert(r.dv()->Obj_0[0] == (ges[0].key@, ges[0].val.dv()));
                    assert(r.dv()->Obj_0 =~~= self.jval()->Obj_0);
                    assert(r.dv() =~~= self.jval());
                    assert(ges[0].val.wf());
                }
                r
            },
            UmeeMsgLeverage::Liquidate(p) => {
                let mut entries: Vec<JsonEntry> = Vec::new();
                entries.push(JsonEntry { key: String::from_str("liquidate"), val: p.build_jval() });
                let ghost ges = entries@;
                let r = JsonVal::Obj(entries);
                proof {
                    assert(r.dv()->Obj_0[0] == (ges[0].key@, ges[0].val.dv()));
                    assert(r.dv()->Obj_0 =~~= self.jval()->Obj_0);
                    assert(r.dv() =~~= self.jval());
                    assert(ges[0].val.wf());
                }
                r
            },
            UmeeMsgLeverage::SupplyCollateral(p) => {
                let mut entries: Vec<JsonEntry> = Vec::new();
                entries.push(JsonEntry { key: String::from_str("supply_collateral"), val: p.build_jval() });
                let ghost ges = entries@;
                let r = JsonVal::Obj(entries);
                proof {
                    assert(r.dv()->Obj_0[0] == (ges[0].key@, ges[0].val.dv()));
                    assert(r.dv()->Obj_0 =~~= self.jval()->Obj_0);
                    assert(r.dv() =~~= self.jval());
                    assert(ges[0].val.wf());
                }
                r
            },
        }
    }

    fn from_jval(v: &JsonVal) -> (r: Option<UmeeMsgLeverage>) {
        match v {
            JsonVal::Obj(entries) => {
                if entries.len() == 1 {
                    proof {
                        assert(v.dv()->Obj_0[0] == (entries@[0].key@, entries@[0].val.dv()));
                        assert(v.dv()->Obj_0 =~~= seq![(entries@[0].key@, entries@[0].val.dv())]);
                        assert(v.dv() =~~= JsonSpec::Obj(seq![(entries@[0].key@, entries@[0].val.dv())]));
                    }
                    let key = entries[0].key.as_str();
                    if str_eq(key, "supply") {
                        match WireRecord::from_jval(&entries[0].val) {
                            Some(p) => {
                                let x = UmeeMsgLeverage::Supply(p);
                                proof {
                                    assert(x.jval()->Obj_0 =~~= v.dv()->Obj_0);
                                    assert(x.jval() =~~= v.dv());
                                }
                                Some(x)
                            },
                            None => {
                                proof {
                                    lemma_umee_msg_leverage_reject_supply((entries@[0].key@, entries@[0].val.dv()));
                                }
                                None
                            },
                        }
                    } else if str_eq(key, "withdraw") {
                        match WireRecord::from_jval(&entries[0].val) {
                            Some(p) => {
                                let x = UmeeMsgLeverage::Withdraw(p);
                                proof {
                                    assert(x.jval()->Obj_0 =~~= v.dv()->Obj_0);
                                    assert(x.jval() =~~= v.dv());
                                }
                                Some(x)
                            },
                            None => {
                                proof {
                                    lemma_umee_msg_leverage_reject_withdraw((entries@[0].key@, entries@[0].val.dv()));
                                }
                                None
                            },
                        }
                    } else if str_eq(key, "max_with_draw") {
                        match WireRecord::from_jval(&entries[0].val) {
                            Some(p) => {
                                let x = UmeeMsgLeverage::MaxWithDraw(p);
                                proof {
                                    assert(x.jval()->Obj_0 =~~= v.dv()->Obj_0);
                                    assert(x.jval() =~~= v.dv());
                                }
                                Some(x)
                            },
                            None => {
                                proof {
                                    lemma_umee_msg_leverage_reject_max_with_draw((entries@[0].key@, entries@[0].val.dv()));
                                }
                                None
                            },
                        }
                    } else if str_eq(key, "collateralize") {
                        match WireRecord::from_jval(&entries[0].val) {
                            Some(p) => {
                                let x = UmeeMsgLeverage::Collateralize(p);
                                proof {
                                    assert(x.jval()->Obj_0 =~~= v.dv()->Obj_0);
                                    assert(x.jval() =~~= v.dv());
                                }
                                Some(x)
                            },
                            None => {
                                proof {
                                    lemma_umee_msg_leverage_reject_collateralize((entries@[0].key@, entries@[0].val.dv()));
                                }
                                None
                            },
                        }
                    } else if str_eq(key, "decollateralize") {
                        match WireRecord::from_jval(&entries[0].val) {
                            Some(p) => {
                                let x = UmeeMsgLeverage::Decollateralize(p);
                                proof {
                                    assert(x.jval()->Obj_0 =~~= v.dv()->Obj_0);
                                    assert(x.jval() =~~= v.dv());
                                }
                                Some(x)
                            },
                            None => {
                                proof {
                                    lemma_umee_msg_leverage_reject_decollateralize((entries@[0].key@, entries@[0].val.dv()));
                                }
                                None
                            },
                        }
                    } else if str_eq(key, "borrow") {
                        match WireRecord::from_jval(&entries[0].val) {
                            Some(p) => {
                                let x = UmeeMsgLeverage::Borrow(p);
                                proof {
                                    assert(x.jval()->Obj_0 =~~= v.dv()->Obj_0);
                                    assert(x.jval() =~~= v.dv());
                                }
                                Some(x)
                            },
                            None => {
                                proof {
                                    lemma_umee_msg_leverage_reject_borrow((entries@[0].key@, entries@[0].val.dv()));
                                }
                                None
                            },
                        }
                    } else if str_eq(key, "max_borrow") {
                        match WireRecord::from_jval(&entries[0].val) {
                            Some(p) => {
                                let x = UmeeMsgLeverage::MaxBorrow(p);
                                proof {
                                    assert(x.jval()->Obj_0 =~~= v.dv()->Obj_0);
                                    assert(x.jval() =~~= v.dv());
                                }
                                Some(x)
                            },
                            None => {
                                proof {
                                    lemma_umee_msg_leverage_reject_max_borrow((entries@[0].key@, entries@[0].val.dv()));
                                }
                                None
                            },
                        }
                    } else if str_eq(key, "repay") {
                        match WireRecord::from_jval(&entries[0].val) {
                            Some(p) => {
                                let x = UmeeMsgLeverage::Repay(p);
                                proof {
                                    assert(x.jval()->Obj_0 =~~= v.dv()->Obj_0);
                                    assert(x.jval() =~~= v.dv());
                                }
                                Some(x)
                            },
                            None => {
                                proof {
                                    lemma_umee_msg_leverage_reject_repay((entries@[0].key@, entries@[0].val.dv()));
                                }
                                None
                            },
                        }
                    } else if str_eq(key, "liquidate") {
                        match WireRecord::from_jval(&entries[0].val) {
                            Some(p) => {
                                let x = UmeeMsgLeverage::Liquidate(p);
                                proof {
                                    assert(x.jval()->Obj_0 =~~= v.dv()->Obj_0);
                                    assert(x.jval() =~~= v.dv());
                                }
                                Some(x)
                            },
                            None => {
                                proof {
                                    lemma_umee_msg_leverage_reject_liquidate((entries@[0].key@, entries@[0].val.dv()));
                                }
                                None
                            },
                        }
                    } else if str_eq(key, "supply_collateral") {
                        match WireRecord::from_jval(&entries[0].val) {
                            Some(p) => {
                                let x = UmeeMsgLeverage::SupplyCollateral(p);
                                proof {
                                    assert(x.jval()->Obj_0 =~~= v.dv()->Obj_0);
                                    assert(x.jval() =~~= v.dv());
                                }
                                Some(x)
                            },
                            None => {
                                proof {
                                    lemma_umee_msg_leverage_reject_supply_collateral((entries@[0].key@, entries@[0].val.dv()));
                                }
                                None
                            },
                        }
                    } else {
                        proof {
                            lemma_umee_msg_leverage_reject_other((entries@[0].key@, entries@[0].val.dv()));
                        }
                        None
                    }
                } else {
                    proof {
                        assert forall|x: UmeeMsgLeverage| v.dv() != #[trigger] x.jval() by {
                            lemma_umee_msg_leverage_shape(x);
                        }
                    }
                    None
                }
            },
            _ => {
                proof {
                    assert forall|x: UmeeMsgLeverage| v.dv() != #[trigger] x.jval() by {
                        lemma_umee_msg_leverage_shape(x);
                    }
                }
                None
            },
        }
    }
}
/// The catalog of message kinds: each kind's canonical lowercase name is
/// fixed once and never reused.
#[derive(Clone, Copy, Debug, PartialEq, Eq)]
pub enum MsgTypes {
    AssignedMsgSupply,
    AssignedMsgWithdraw,
    AssignedMsgCollateralize,
    AssignedMsgDecollateralize,
    AssignedMsgBorrow,
    AssignedMsgMaxBorrow,
    AssignedMsgRepay,
    AssignedMsgLiquidate,
    AssignedMsgSupplyCollateralize,
    AssignedMsgMaxWithdraw,
}

impl MsgTypes {
    /// The canonical lowercase name of this message kind.
    pub open spec fn spec_name(self) -> Seq<char> {
        match self {
            MsgTypes::AssignedMsgSupply => "supply"@,
            MsgTypes::AssignedMsgWithdraw => "withdraw"@,
            MsgTypes::AssignedMsgCollateralize => "collateralize"@,
            MsgTypes::AssignedMsgDecollateralize => "decollateralize"@,
            MsgTypes::AssignedMsgBorrow => "borrow"@,
            MsgTypes::AssignedMsgMaxBorrow => "max_borrow"@,
            MsgTypes::AssignedMsgRepay => "repay"@,
            MsgTypes::AssignedMsgLiquidate => "liquidate"@,
            MsgTypes::AssignedMsgSupplyCollateralize => "supply_collateral"@,
            MsgTypes::AssignedMsgMaxWithdraw => "max_withdraw"@,
        }
    }

    /// The canonical lowercase name, as text.
    pub fn name(&self) -> (r: String)
        ensures
            r@ == self.spec_name(),
    {
        match self {
            MsgTypes::AssignedMsgSupply => String::from_str("supply"),
            MsgTypes::AssignedMsgWithdraw => String::from_str("withdraw"),
            MsgTypes::AssignedMsgCollateralize => String::from_str("collateralize"),
            MsgTypes::AssignedMsgDecollateralize => String::from_str("decollateralize"),
            MsgTypes::AssignedMsgBorrow => String::from_str("borrow"),
            MsgTypes::AssignedMsgMaxBorrow => String::from_str("max_borrow"),
            MsgTypes::AssignedMsgRepay => String::from_str("repay"),
            MsgTypes::AssignedMsgLiquidate => String::from_str("liquidate"),
            MsgTypes::AssignedMsgSupplyCollateralize => String::from_str("supply_collateral"),
            MsgTypes::AssignedMsgMaxWithdraw => String::from_str("max_withdraw"),
        }
    }
}

} // verus!
