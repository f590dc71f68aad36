//! The earlier numeric catalog of operation kinds.
//!
//! Before kinds were tagged by name, messages and queries carried explicit
//! small integer codes, assigned once and never reused; appending a kind
//! takes the next free code, and retired code ranges stay reserved. The
//! catalog below is that numbering, kept both as the frozen table it grew
//! from and as the current total lookup, which answers the unrecognized
//! sentinel for every code outside the catalog instead of failing.

use vstd::prelude::*;

use crate::base::{Addr, Coin, Decimal256};
use crate::record::WireRecord;
use crate::wire::{json_wf, str_eq, JsonEntry, JsonSpec, JsonVal};

verus! {

broadcast use vstd::string::group_string_axioms;


/// Code of the supply message.
pub const ASSIGNED_MSG_SUPPLY: u16 = 1;

/// Code of the withdraw message.
pub const ASSIGNED_MSG_WITHDRAW: u16 = 2;

/// Code of the collateralize message.
pub const ASSIGNED_MSG_COLLATERALIZE: u16 = 3;

/// Code of the decollateralize message.
pub const ASSIGNED_MSG_DECOLLATERALIZE: u16 = 4;

/// Code of the borrow message.
pub const ASSIGNED_MSG_BORROW: u16 = 5;

/// Code of the repay message.
pub const ASSIGNED_MSG_REPAY: u16 = 6;

/// The canonical name answered for a code outside the catalog.
pub open spec fn spec_unrecognized() -> Seq<char> {
    "unrecognized_msg"@
}

/// The canonical name of a numeric message code: the catalog is total, and
/// every code outside it maps to the unrecognized sentinel.
pub open spec fn spec_msg_name(code: u16) -> Seq<char> {
    if code == 1 { "supply"@ }
    else if code == 2 { "withdraw"@ }
    else if code == 3 { "collateralize"@ }
    else if code == 4 { "decollateralize"@ }
    else if code == 5 { "borrow"@ }
    else if code == 6 { "repay"@ }
    else { spec_unrecognized() }
}

/// The canonical name of a numeric message code, as text.
pub fn msg_name(code: u16) -> (r: String)
    ensures
        r@ == spec_msg_name(code),
{
    if code == 1 { String::from_str("supply") }
    else if code == 2 { String::from_str("withdraw") }
    else if code == 3 { String::from_str("collateralize") }
    else if code == 4 { String::from_str("decollateralize") }
    else if code == 5 { String::from_str("borrow") }
    else if code == 6 { String::from_str("repay") }
    else { String::from_str("unrecognized_msg") }
}

/// Whether a numeric message code names an operation of the catalog.
pub fn msg_code_valid(code: u16) -> (r: bool)
    ensures
        r == (spec_msg_name(code) != spec_unrecognized()),
{
    let known = 1 <= code && code <= 6;
    proof {
        lemma_legacy_names();
    }
    known
}

/// Unknown discriminant: every code outside the catalog resolves to the
/// unrecognized sentinel and fails the validity check.
pub proof fn lemma_unknown_code_unrecognized(code: u16)
    requires
        !(1 <= code <= 6),
    ensures
        spec_msg_name(code) == spec_unrecognized(),
{
}

/// The frozen message table from before the oracle codes were appended.
pub open spec fn spec_frozen_msg_name(code: u16) -> Seq<char> {
    if code == 1 { "supply"@ }
    else if code == 2 { "withdraw"@ }
    else if code == 3 { "collateralize"@ }
    else if code == 4 { "decollateralize"@ }
    else if code == 5 { "borrow"@ }
    else if code == 6 { "repay"@ }
    else { spec_unrecognized() }
}

/// Append-only evolution: the catalog as it stands today still maps every
/// code of the frozen table to the name frozen for it.
pub proof fn lemma_msg_catalog_append_only(code: u16)
    requires
        1 <= code <= 6,
    ensures
        spec_msg_name(code) == spec_frozen_msg_name(code),
{
}

/// Asks how much of one denomination can still be borrowed.
#[derive(Clone, Debug, PartialEq, Eq)]
pub struct AvailableBorrowParams {
    pub denom: String,
}
impl WireRecord for AvailableBorrowParams {
    open spec fn jval(self) -> JsonSpec {
        JsonSpec::Obj(
            seq![
                ("denom"@, self.denom.jval()),
            ],
        )
    }

    proof fn jval_wf(self) {
        self.denom.jval_wf();
        assert forall|k: int| 0 <= k < self.jval()->Obj_0.len() implies json_wf(
            #[trigger] self.jval()->Obj_0[k].1,
        ) by {
            if k == 0 {
                assert(json_wf(self.jval()->Obj_0[0].1));
            }
        }
    }

    fn build_jval(&self) -> (r: JsonVal) {
        let mut entries: Vec<JsonEntry> = Vec::new();
        entries.push(JsonEntry { key: String::from_str("denom"), val: self.denom.build_jval() });
        let ghost ges = entries@;
        let r = JsonVal::Obj(entries);
        proof {
            let dvs = r.dv()->Obj_0;
            assert(dvs.len() == 1);
            assert(dvs[0] == (ges[0].key@, ges[0].val.dv()));
            assert(r.dv()->Obj_0 =~~= self.jval()->Obj_0);
            assert(r.dv() =~~= self.jval());
            assert(ges[0].val.wf());
        }
        r
    }

    fn from_jval(v: &JsonVal) -> (r: Option<AvailableBorrowParams>) {
        match v {
            JsonVal::Obj(entries) => {
                let shape = entries.len() == 1 && str_eq(entries[0].key.as_str(), "denom");
                proof {
                    let dvs = v.dv()->Obj_0;
                    assert(dvs.len() == entries@.len());
                    if entries@.len() == 1 {
                        assert(dvs[0] == (entries@[0].key@, entries@[0].val.dv()));
                    }
                }
                if shape {
                    let g0: Option<String> = WireRecord::from_jval(&entries[0].val);
                    match (g0) {
                        (Some(h0)) => {
                            let x = AvailableBorrowParams { denom: h0 };
                            proof {
                                assert(x.jval()->Obj_0 =~~= v.dv()->Obj_0);
                                assert(x.jval() =~~= v.dv());
                            }
                            Some(x)
                        },
                        _ => {
                            proof {
                                assert forall|x: AvailableBorrowParams| v.dv() != #[trigger] x.jval() by {
                                    if v.dv() == x.jval() {
                                        assert(v.dv()->Obj_0[0].1 == x.denom.jval());
                                    }
                                }
                            }
                            None
                        },
                    }
                } else {
                    proof {
                        assert forall|x: AvailableBorrowParams| v.dv() != #[trigger] x.jval() by {
                            if v.dv() == x.jval() {
                                assert(v.dv()->Obj_0.len() == 1);
                                assert(v.dv()->Obj_0[0].0 == "denom"@);
                            }
                        }
                    }
                    None
                }
            },
            _ => None,
        }
    }
}
/// Asks for one denomination's borrow interest rate.
#[derive(Clone, Debug, PartialEq, Eq)]
pub struct BorrowAPYParams {
    pub denom: String,
}
impl WireRecord for BorrowAPYParams {
    open spec fn jval(self) -> JsonSpec {
        JsonSpec::Obj(
            seq![
                ("denom"@, self.denom.jval()),
            ],
        )
    }

    proof fn jval_wf(self) {
        self.denom.jval_wf();
        assert forall|k: int| 0 <= k < self.jval()->Obj_0.len() implies json_wf(
            #[trigger] self.jval()->Obj_0[k].1,
        ) by {
            if k == 0 {
                assert(json_wf(self.jval()->Obj_0[0].1));
            }
        }
    }

    fn build_jval(&self) -> (r: JsonVal) {
        let mut entries: Vec<JsonEntry> = Vec::new();
        entries.push(JsonEntry { key: String::from_str("denom"), val: self.denom.build_jval() });
        let ghost ges = entries@;
        let r = JsonVal::Obj(entries);
        proof {
            let dvs = r.dv()->Obj_0;
            assert(dvs.len() == 1);
            assert(dvs[0] == (ges[0].key@, ges[0].val.dv()));
            assert(r.dv()->Obj_0 =~~= self.jval()->Obj_0);
            assert(r.dv() =~~= self.jval());
            assert(ges[0].val.wf());
        }
        r
    }

    fn from_jval(v: &JsonVal) -> (r: Option<BorrowAPYParams>) {
        match v {
            JsonVal::Obj(entries) => {
                let shape = entries.len() == 1 && str_eq(entries[0].key.as_str(), "denom");
                proof {
                    let dvs = v.dv()->Obj_0;
                    assert(dvs.len() == entries@.len());
                    if entries@.len() == 1 {
                        assert(dvs[0] == (entries@[0].key@, entries@[0].val.dv()));
                    }
                }
                if shape {
                    let g0: Option<String> = WireRecord::from_jval(&entries[0].val);
                    match (g0) {
                        (Some(h0)) => {
                            let x = BorrowAPYParams { denom: h0 };
                            proof {
                                assert(x.jval()->Obj_0 =~~= v.dv()->Obj_0);
                                assert(x.jval() =~~= v.dv());
                            }
                            Some(x)
                        },
                        _ => {
                            proof {
                                assert forall|x: BorrowAPYParams| v.dv() != #[trigger] x.jval() by {
                                    if v.dv() == x.jval() {
                                        assert(v.dv()->Obj_0[0].1 == x.denom.jval());
                                    }
                                }
                            }
                            None
                        },
                    }
                } else {
                    proof {
                        assert forall|x: BorrowAPYParams| v.dv() != #[trigger] x.jval() by {
                            if v.dv() == x.jval() {
                                assert(v.dv()->Obj_0.len() == 1);
                                assert(v.dv()->Obj_0[0].0 == "denom"@);
                            }
                        }
                    }
                    None
                }
            },
            _ => None,
        }
    }
}
/// Asks for one denomination's supply interest rate.
#[derive(Clone, Debug, PartialEq, Eq)]
pub struct SupplyAPYParams {
    pub denom: String,
}
impl WireRecord for SupplyAPYParams {
    open spec fn jval(self) -> JsonSpec {
        JsonSpec::Obj(
            seq![
                ("denom"@, self.denom.jval()),
            ],
        )
    }

    proof fn jval_wf(self) {
        self.denom.jval_wf();
        assert forall|k: int| 0 <= k < self.jval()->Obj_0.len() implies json_wf(
            #[trigger] self.jval()->Obj_0[k].1,
        ) by {
            if k == 0 {
                assert(json_wf(self.jval()->Obj_0[0].1));
            }
        }
    }

    fn build_jval(&self) -> (r: JsonVal) {
        let mut entries: Vec<JsonEntry> = Vec::new();
        entries.push(JsonEntry { key: String::from_str("denom"), val: self.denom.build_jval() });
        let ghost ges = entries@;
        let r = JsonVal::Obj(entries);
        proof {
            let dvs = r.dv()->Obj_0;
            assert(dvs.len() == 1);
            assert(dvs[0] == (ges[0].key@, ges[0].val.dv()));
            assert(r.dv()->Obj_0 =~~= self.jval()->Obj_0);
            assert(r.dv() =~~= self.jval());
            assert(ges[0].val.wf());
        }
        r
    }

    fn from_jval(v: &JsonVal) -> (r: Option<SupplyAPYParams>) {
        match v {
            JsonVal::Obj(entries) => {
                let shape = entries.len() == 1 && str_eq(entries[0].key.as_str(), "denom");
                proof {
                    let dvs = v.dv()->Obj_0;
                    assert(dvs.len() == entries@.len());
                    if entries@.len() == 1 {
                        assert(dvs[0] == (entries@[0].key@, entries@[0].val.dv()));
                    }
                }
                if shape {
                    let g0: Option<String> = WireRecord::from_jval(&entries[0].val);
                    match (g0) {
                        (Some(h0)) => {
                            let x = SupplyAPYParams { denom: h0 };
                            proof {
                                assert(x.jval()->Obj_0 =~~= v.dv()->Obj_0);
                                assert(x.jval() =~~= v.dv());
                            }
                            Some(x)
                        },
                        _ => {
                            proof {
                                assert forall|x: SupplyAPYParams| v.dv() != #[trigger] x.jval() by {
                                    if v.dv() == x.jval() {
                                        assert(v.dv()->Obj_0[0].1 == x.denom.jval());
                                    }
                                }
                            }
                            None
                        },
                    }
                } else {
                    proof {
                        assert forall|x: SupplyAPYParams| v.dv() != #[trigger] x.jval() by {
                            if v.dv() == x.jval() {
                                assert(v.dv()->Obj_0.len() == 1);
                                assert(v.dv()->Obj_0[0].0 == "denom"@);
                            }
                        }
                    }
                    None
                }
            },
            _ => None,
        }
    }
}
/// Asks for one denomination's market size in USD.
#[derive(Clone, Debug, PartialEq, Eq)]
pub struct MarketSizeParams {
    pub denom: String,
}
impl WireRecord for MarketSizeParams {
    open spec fn jval(self) -> JsonSpec {
        JsonSpec::Obj(
            seq![
                ("denom"@, self.denom.jval()),
            ],
        )
    }

    proof fn jval_wf(self) {
        self.denom.jval_wf();
        assert forall|k: int| 0 <= k < self.jval()->Obj_0.len() implies json_wf(
            #[trigger] self.jval()->Obj_0[k].1,
        ) by {
            if k == 0 {
                assert(json_wf(self.jval()->Obj_0[0].1));
            }
        }
    }

    fn build_jval(&self) -> (r: JsonVal) {
        let mut entries: Vec<JsonEntry> = Vec::new();
        entries.push(JsonEntry { key: String::from_str("denom"), val: self.denom.build_jval() });
        let ghost ges = entries@;
        let r = JsonVal::Obj(entries);
        proof {
            let dvs = r.dv()->Obj_0;
            assert(dvs.len() == 1);
            assert(dvs[0] == (ges[0].key@, ges[0].val.dv()));
            assert(r.dv()->Obj_0 =~~= self.jval()->Obj_0);
            assert(r.dv() =~~= self.jval());
            assert(ges[0].val.wf());
        }
        r
    }

    fn from_jval(v: &JsonVal) -> (r: Option<MarketSizeParams>) {
        match v {
            JsonVal::Obj(entries) => {
                let shape = entries.len() == 1 && str_eq(entries[0].key.as_str(), "denom");
                proof {
                    let dvs = v.dv()->Obj_0;
                    assert(dvs.len() == entries@.len());
                    if entries@.len() == 1 {
                        assert(dvs[0] == (entries@[0].key@, entries@[0].val.dv()));
                    }
                }
                if shape {
                    let g0: Option<String> = WireRecord::from_jval(&entries[0].val);
                    match (g0) {
                        (Some(h0)) => {
                            let x = MarketSizeParams { denom: h0 };
                            proof {
                                assert(x.jval()->Obj_0 =~~= v.dv()->Obj_0);
                                assert(x.jval() =~~= v.dv());
                            }
                            Some(x)
                        },
                        _ => {
                            proof {
                                assert forall|x: MarketSizeParams| v.dv() != #[trigger] x.jval() by {
                                    if v.dv() == x.jval() {
                                        assert(v.dv()->Obj_0[0].1 == x.denom.jval());
                                    }
                                }
                            }
                            None
                        },
                    }
                } else {
                    proof {
                        assert forall|x: MarketSizeParams| v.dv() != #[trigger] x.jval() by {
                            if v.dv() == x.jval() {
                                assert(v.dv()->Obj_0.len() == 1);
                                assert(v.dv()->Obj_0[0].0 == "denom"@);
                            }
                        }
                    }
                    None
                }
            },
            _ => None,
        }
    }
}
/// Asks for one denomination's market size in tokens.
#[derive(Clone, Debug, PartialEq, Eq)]
pub struct TokenMarketSizeParams {
    pub denom: String,
}
impl WireRecord for TokenMarketSizeParams {
    open spec fn jval(self) -> JsonSpec {
        JsonSpec::Obj(
            seq![
                ("denom"@, self.denom.jval()),
            ],
        )
    }

    proof fn jval_wf(self) {
        self.denom.jval_wf();
        assert forall|k: int| 0 <= k < self.jval()->Obj_0.len() implies json_wf(
            #[trigger] self.jval()->Obj_0[k].1,
        ) by {
            if k == 0 {
                assert(json_wf(self.jval()->Obj_0[0].1));
            }
        }
    }

    fn build_jval(&self) -> (r: JsonVal) {
        let mut entries: Vec<JsonEntry> = Vec::new();
        entries.push(JsonEntry { key: String::from_str("denom"), val: self.denom.build_jval() });
        let ghost ges = entries@;
        let r = JsonVal::Obj(entries);
        proof {
            let dvs = r.dv()->Obj_0;
            assert(dvs.len() == 1);
            assert(dvs[0] == (ges[0].key@, ges[0].val.dv()));
            assert(r.dv()->Obj_0 =~~= self.jval()->Obj_0);
            assert(r.dv() =~~= self.jval());
            assert(ges[0].val.wf());
        }
        r
    }

    fn from_jval(v: &JsonVal) -> (r: Option<TokenMarketSizeParams>) {
        match v {
            JsonVal::Obj(entries) => {
                let shape = entries.len() == 1 && str_eq(entries[0].key.as_str(), "denom");
                proof {
                    let dvs = v.dv()->Obj_0;
                    assert(dvs.len() == entries@.len());
                    if entries@.len() == 1 {
                        assert(dvs[0] == (entries@[0].key@, entries@[0].val.dv()));
                    }
                }
                if shape {
                    let g0: Option<String> = WireRecord::from_jval(&entries[0].val);
                    match (g0) {
                        (Some(h0)) => {
                            let x = TokenMarketSizeParams { denom: h0 };
                            proof {
                                assert(x.jval()->Obj_0 =~~= v.dv()->Obj_0);
                                assert(x.jval() =~~= v.dv());
                            }
                            Some(x)
                        },
                        _ => {
                            proof {
                                assert forall|x: TokenMarketSizeParams| v.dv() != #[trigger] x.jval() by {
                                    if v.dv() == x.jval() {
                                        assert(v.dv()->Obj_0[0].1 == x.denom.jval());
                                    }
                                }
                            }
                            None
                        },
                    }
                } else {
                    proof {
                        assert forall|x: TokenMarketSizeParams| v.dv() != #[trigger] x.jval() by {
                            if v.dv() == x.jval() {
                                assert(v.dv()->Obj_0.len() == 1);
                                assert(v.dv()->Obj_0[0].0 == "denom"@);
                            }
                        }
                    }
                    None
                }
            },
            _ => None,
        }
    }
}
/// Asks for one denomination's reserved amount.
#[derive(Clone, Debug, PartialEq, Eq)]
pub struct ReserveAmountParams {
    pub denom: String,
}
impl WireRecord for ReserveAmountParams {
    open spec fn jval(self) -> JsonSpec {
        JsonSpec::Obj(
            seq![
                ("denom"@, self.denom.jval()),
            ],
        )
    }

    proof fn jval_wf(self) {
        self.denom.jval_wf();
        assert forall|k: int| 0 <= k < self.jval()->Obj_0.len() implies json_wf(
            #[trigger] self.jval()->Obj_0[k].1,
        ) by {
            if k == 0 {
                assert(json_wf(self.jval()->Obj_0[0].1));
            }
        }
    }

    fn build_jval(&self) -> (r: JsonVal) {
        let mut entries: Vec<JsonEntry> = Vec::new();
        entries.push(JsonEntry { key: String::from_str("denom"), val: self.denom.build_jval() });
        let ghost ges = entries@;
        let r = JsonVal::Obj(entries);
        proof {
            let dvs = r.dv()->Obj_0;
            assert(dvs.len() == 1);
            assert(dvs[0] == (ges[0].key@, ges[0].val.dv()));
            assert(r.dv()->Obj_0 =~~= self.jval()->Obj_0);
            assert(r.dv() =~~= self.jval());
            assert(ges[0].val.wf());
        }
        r
    }

    fn from_jval(v: &JsonVal) -> (r: Option<ReserveAmountParams>) {
        match v {
            JsonVal::Obj(entries) => {
                let shape = entries.len() == 1 && str_eq(entries[0].key.as_str(), "denom");
                proof {
                    let dvs = v.dv()->Obj_0;
                    assert(dvs.len() == entries@.len());
                    if entries@.len() == 1 {
                        assert(dvs[0] == (entries@[0].key@, entries@[0].val.dv()));
                    }
                }
                if shape {
                    let g0: Option<String> = WireRecord::from_jval(&entries[0].val);
                    match (g0) {
                        (Some(h0)) => {
                            let x = ReserveAmountParams { denom: h0 };
                            proof {
                                assert(x.jval()->Obj_0 =~~= v.dv()->Obj_0);
                                assert(x.jval() =~~= v.dv());
                            }
                            Some(x)
                        },
                        _ => {
                            proof {
                                assert forall|x: ReserveAmountParams| v.dv() != #[trigger] x.jval() by {
                                    if v.dv() == x.jval() {
                                        assert(v.dv()->Obj_0[0].1 == x.denom.jval());
                                    }
                                }
                            }
                            None
                        },
                    }
                } else {
                    proof {
                        assert forall|x: ReserveAmountParams| v.dv() != #[trigger] x.jval() by {
                            if v.dv() == x.jval() {
                                assert(v.dv()->Obj_0.len() == 1);
                                assert(v.dv()->Obj_0[0].0 == "denom"@);
                            }
                        }
                    }
                    None
                }
            },
            _ => None,
        }
    }
}
/// Asks for one denomination's uToken exchange rate.
#[derive(Clone, Debug, PartialEq, Eq)]
pub struct ExchangeRateParams {
    pub denom: String,
}
impl WireRecord for ExchangeRateParams {
    open spec fn jval(self) -> JsonSpec {
        JsonSpec::Obj(
            seq![
                ("denom"@, self.denom.jval()),
            ],
        )
    }

    proof fn jval_wf(self) {
        self.denom.jval_wf();
        assert forall|k: int| 0 <= k < self.jval()->Obj_0.len() implies json_wf(
            #[trigger] self.jval()->Obj_0[k].1,
        ) by {
            if k == 0 {
                assert(json_wf(self.jval()->Obj_0[0].1));
            }
        }
    }

    fn build_jval(&self) -> (r: JsonVal) {
        let mut entries: Vec<JsonEntry> = Vec::new();
        entries.push(JsonEntry { key: String::from_str("denom"), val: self.denom.build_jval() });
        let ghost ges = entries@;
        let r = JsonVal::Obj(entries);
        proof {
            let dvs = r.dv()->Obj_0;
            assert(dvs.len() == 1);
            assert(dvs[0] == (ges[0].key@, ges[0].val.dv()));
            assert(r.dv()->Obj_0 =~~= self.jval()->Obj_0);
            assert(r.dv() =~~= self.jval());
            assert(ges[0].val.wf());
        }
        r
    }

    fn from_jval(v: &JsonVal) -> (r: Option<ExchangeRateParams>) {
        match v {
            JsonVal::Obj(entries) => {
                let shape = entries.len() == 1 && str_eq(entries[0].key.as_str(), "denom");
                proof {
                    let dvs = v.dv()->Obj_0;
                    assert(dvs.len() == entries@.len());
                    if entries@.len() == 1 {
                        assert(dvs[0] == (entries@[0].key@, entries@[0].val.dv()));
                    }
                }
                if shape {
                    let g0: Option<String> = WireRecord::from_jval(&entries[0].val);
                    match (g0) {
                        (Some(h0)) => {
                            let x = ExchangeRateParams { denom: h0 };
                            proof {
                                assert(x.jval()->Obj_0 =~~= v.dv()->Obj_0);
                                assert(x.jval() =~~= v.dv());
                            }
                            Some(x)
                        },
                        _ => {
                            proof {
                                assert forall|x: ExchangeRateParams| v.dv() != #[trigger] x.jval() by {
                                    if v.dv() == x.jval() {
                                        assert(v.dv()->Obj_0[0].1 == x.denom.jval());
                                    }
                                }
                            }
                            None
                        },
                    }
                } else {
                    proof {
                        assert forall|x: ExchangeRateParams| v.dv() != #[trigger] x.jval() by {
                            if v.dv() == x.jval() {
                                assert(v.dv()->Obj_0.len() == 1);
                                assert(v.dv()->Obj_0[0].0 == "denom"@);
                            }
                        }
                    }
                    None
                }
            },
            _ => None,
        }
    }
}
/// Code of the borrowed query, first of the leverage range.
pub const ASSIGNED_QUERY_BORROWED: u16 = 1;

/// Code of the exchange-rates query.
pub const ASSIGNED_QUERY_EXCHANGE_RATES: u16 = 2;

/// Code of the registered-tokens query.
pub const ASSIGNED_QUERY_REGISTERED_TOKENS: u16 = 3;

/// Code of the leverage-parameters query.
pub const ASSIGNED_QUERY_LEVERAGE_PARAMS: u16 = 4;

/// First code of the oracle range, appended after the leverage range.
pub const ASSIGNED_QUERY_ACTIVE_EXCHANGE_RATES: u16 = 23;

/// Last code of the oracle range.
pub const ASSIGNED_QUERY_ORACLE_PARAMS: u16 = 30;

/// The canonical name of a numeric query code. The leverage range came
/// first; the oracle range was appended later starting at its own offset,
/// leaving the codes between the ranges reserved.
pub open spec fn spec_query_name(code: u16) -> Seq<char> {
    if code == 1 { "borrowed"@ }
    else if code == 2 { "exchange_rates"@ }
    else if code == 3 { "registered_tokens"@ }
    else if code == 4 { "leverage_parameters"@ }
    else if code == 5 { "borrowed_value"@ }
    else if code == 6 { "supplied"@ }
    else if code == 7 { "supplied_value"@ }
    else if code == 8 { "available_borrow"@ }
    else if code == 9 { "borrow_apy"@ }
    else if code == 10 { "supply_apy"@ }
    else if code == 11 { "market_size"@ }
    else if code == 12 { "token_market_size"@ }
    else if code == 13 { "reserve_amount"@ }
    else if code == 14 { "collateral"@ }
    else if code == 15 { "collateral_value"@ }
    else if code == 16 { "exchange_rate"@ }
    else if code == 23 { "active_exchange_rates"@ }
    else if code == 24 { "feeder_delegation"@ }
    else if code == 25 { "miss_counter"@ }
    else if code == 26 { "aggregate_prevote"@ }
    else if code == 27 { "aggregate_prevotes"@ }
    else if code == 28 { "aggregate_vote"@ }
    else if code == 29 { "aggregate_votes"@ }
    else if code == 30 { "oracle_params"@ }
    else { spec_unrecognized() }
}

/// The frozen query table from before the oracle range was appended: the
/// leverage codes only.
pub open spec fn spec_frozen_query_name(code: u16) -> Seq<char> {
    if code == 1 { "borrowed"@ }
    else if code == 2 { "exchange_rates"@ }
    else if code == 3 { "registered_tokens"@ }
    else if code == 4 { "leverage_parameters"@ }
    else if code == 5 { "borrowed_value"@ }
    else if code == 6 { "supplied"@ }
    else if code == 7 { "supplied_value"@ }
    else if code == 8 { "available_borrow"@ }
    else if code == 9 { "borrow_apy"@ }
    else if code == 10 { "supply_apy"@ }
    else if code == 11 { "market_size"@ }
    else if code == 12 { "token_market_size"@ }
    else if code == 13 { "reserve_amount"@ }
    else if code == 14 { "collateral"@ }
    else if code == 15 { "collateral_value"@ }
    else if code == 16 { "exchange_rate"@ }
    else { spec_unrecognized() }
}

/// The canonical name of a numeric query code, as text.
pub fn query_name(code: u16) -> (r: String)
    ensures
        r@ == spec_query_name(code),
{
    if code == 1 { String::from_str("borrowed") }
    else if code == 2 { String::from_str("exchange_rates") }
    else if code == 3 { String::from_str("registered_tokens") }
    else if code == 4 { String::from_str("leverage_parameters") }
    else if code == 5 { String::from_str("borrowed_value") }
    else if code == 6 { String::from_str("supplied") }
    else if code == 7 { String::from_str("supplied_value") }
    else if code == 8 { String::from_str("available_borrow") }
    else if code == 9 { String::from_str("borrow_apy") }
    else if code == 10 { String::from_str("supply_apy") }
    else if code == 11 { String::from_str("market_size") }
    else if code == 12 { String::from_str("token_market_size") }
    else if code == 13 { String::from_str("reserve_amount") }
    else if code == 14 { String::from_str("collateral") }
    else if code == 15 { String::from_str("collateral_value") }
    else if code == 16 { String::from_str("exchange_rate") }
    else if code == 23 { String::from_str("active_exchange_rates") }
    else if code == 24 { String::from_str("feeder_delegation") }
    else if code == 25 { String::from_str("miss_counter") }
    else if code == 26 { String::from_str("aggregate_prevote") }
    else if code == 27 { String::from_str("aggregate_prevotes") }
    else if code == 28 { String::from_str("aggregate_vote") }
    else if code == 29 { String::from_str("aggregate_votes") }
    else if code == 30 { String::from_str("oracle_params") }
    else { String::from_str("unrecognized_msg") }
}

/// Whether a numeric query code names an operation of the catalog.
pub fn query_code_valid(code: u16) -> (r: bool)
    ensures
        r == (spec_query_name(code) != spec_unrecognized()),
{
    let known = (1 <= code && code <= 16) || (23 <= code && code <= 30);
    proof {
        lemma_legacy_names();
    }
    known
}

/// Unknown discriminant: every query code outside both ranges resolves to
/// the unrecognized sentinel.
pub proof fn lemma_unknown_query_code_unrecognized(code: u16)
    requires
        !(1 <= code <= 16),
        !(23 <= code <= 30),
    ensures
        spec_query_name(code) == spec_unrecognized(),
{
}

/// Append-only evolution: appending the oracle range did not change the
/// name of any code of the frozen leverage table.
pub proof fn lemma_query_catalog_append_only(code: u16)
    requires
        1 <= code <= 16,
    ensures
        spec_query_name(code) == spec_frozen_query_name(code),
{
}


/// A query of the earlier schema asking for one account's borrows.
#[derive(Clone, Debug, PartialEq, Eq)]
pub struct BorrowedParams {
    pub address: Addr,
}

/// A query of the earlier schema asking for one account's borrow value.
#[derive(Clone, Debug, PartialEq, Eq)]
pub struct BorrowedValueParams {
    pub address: Addr,
}

/// A query of the earlier schema asking for one account's supplies.
#[derive(Clone, Debug, PartialEq, Eq)]
pub struct SuppliedParams {
    pub address: Addr,
}

/// A query of the earlier schema asking for one account's supply value.
#[derive(Clone, Debug, PartialEq, Eq)]
pub struct SuppliedValueParams {
    pub address: Addr,
}

/// A query of the earlier schema asking for one account's collateral.
#[derive(Clone, Debug, PartialEq, Eq)]
pub struct CollateralParams {
    pub address: Addr,
}

/// A query of the earlier schema asking for one account's collateral value.
#[derive(Clone, Debug, PartialEq, Eq)]
pub struct CollateralValueParams {
    pub address: Addr,
}

impl WireRecord for BorrowedParams {
    open spec fn jval(self) -> JsonSpec {
        JsonSpec::Obj(
            seq![
                ("address"@, self.address.jval()),
            ],
        )
    }

    proof fn jval_wf(self) {
        self.address.jval_wf();
        assert forall|k: int| 0 <= k < self.jval()->Obj_0.len() implies json_wf(
            #[trigger] self.jval()->Obj_0[k].1,
        ) by {
            if k == 0 {
                assert(json_wf(self.jval()->Obj_0[0].1));
            }
        }
    }

    fn build_jval(&self) -> (r: JsonVal) {
        let mut entries: Vec<JsonEntry> = Vec::new();
        entries.push(JsonEntry { key: String::from_str("address"), val: self.address.build_jval() });
        let ghost ges = entries@;
        let r = JsonVal::Obj(entries);
        proof {
            let dvs = r.dv()->Obj_0;
            assert(dvs.len() == 1);
            assert(dvs[0] == (ges[0].key@, ges[0].val.dv()));
            assert(r.dv()->Obj_0 =~~= self.jval()->Obj_0);
            assert(r.dv() =~~= self.jval());
            assert(ges[0].val.wf());
        }
        r
    }

    fn from_jval(v: &JsonVal) -> (r: Option<BorrowedParams>) {
        match v {
            JsonVal::Obj(entries) => {
                let shape = entries.len() == 1 && str_eq(entries[0].key.as_str(), "address");
                proof {
                    let dvs = v.dv()->Obj_0;
                    assert(dvs.len() == entries@.len());
                    if entries@.len() == 1 {
                        assert(dvs[0] == (entries@[0].key@, entries@[0].val.dv()));
                    }
                }
                if shape {
                    let g0: Option<Addr> = WireRecord::from_jval(&entries[0].val);
                    match (g0) {
                        (Some(h0)) => {
                            let x = BorrowedParams { address: h0 };
                            proof {
                                assert(x.jval()->Obj_0 =~~= v.dv()->Obj_0);
                                assert(x.jval() =~~= v.dv());
                            }
                            Some(x)
                        },
                        _ => {
                            proof {
                                assert forall|x: BorrowedParams| v.dv() != #[trigger] x.jval() by {
                                    if v.dv() == x.jval() {
                                        assert(v.dv()->Obj_0[0].1 == x.address.jval());
                                    }
                                }
                            }
                            None
                        },
                    }
                } else {
                    proof {
                        assert forall|x: BorrowedParams| v.dv() != #[trigger] x.jval() by {
                            if v.dv() == x.jval() {
                                assert(v.dv()->Obj_0.len() == 1);
                                assert(v.dv()->Obj_0[0].0 == "address"@);
                            }
                        }
                    }
                    None
                }
            },
            _ => None,
        }
    }
}
impl WireRecord for BorrowedValueParams {
    open spec fn jval(self) -> JsonSpec {
        JsonSpec::Obj(
            seq![
                ("address"@, self.address.jval()),
            ],
        )
    }

    proof fn jval_wf(self) {
        self.address.jval_wf();
        assert forall|k: int| 0 <= k < self.jval()->Obj_0.len() implies json_wf(
            #[trigger] self.jval()->Obj_0[k].1,
        ) by {
            if k == 0 {
                assert(json_wf(self.jval()->Obj_0[0].1));
            }
        }
    }

    fn build_jval(&self) -> (r: JsonVal) {
        let mut entries: Vec<JsonEntry> = Vec::new();
        entries.push(JsonEntry { key: String::from_str("address"), val: self.address.build_jval() });
        let ghost ges = entries@;
        let r = JsonVal::Obj(entries);
        proof {
            let dvs = r.dv()->Obj_0;
            assert(dvs.len() == 1);
            assert(dvs[0] == (ges[0].key@, ges[0].val.dv()));
            assert(r.dv()->Obj_0 =~~= self.jval()->Obj_0);
            assert(r.dv() =~~= self.jval());
            assert(ges[0].val.wf());
        }
        r
    }

    fn from_jval(v: &JsonVal) -> (r: Option<BorrowedValueParams>) {
        match v {
            JsonVal::Obj(entries) => {
                let shape = entries.len() == 1 && str_eq(entries[0].key.as_str(), "address");
                proof {
                    let dvs = v.dv()->Obj_0;
                    assert(dvs.len() == entries@.len());
                    if entries@.len() == 1 {
                        assert(dvs[0] == (entries@[0].key@, entries@[0].val.dv()));
                    }
                }
                if shape {
                    let g0: Option<Addr> = WireRecord::from_jval(&entries[0].val);
                    match (g0) {
                        (Some(h0)) => {
                            let x = BorrowedValueParams { address: h0 };
                            proof {
                                assert(x.jval()->Obj_0 =~~= v.dv()->Obj_0);
                                assert(x.jval() =~~= v.dv());
                            }
                            Some(x)
                        },
                        _ => {
                            proof {
                                assert forall|x: BorrowedValueParams| v.dv() != #[trigger] x.jval() by {
                                    if v.dv() == x.jval() {
                                        assert(v.dv()->Obj_0[0].1 == x.address.jval());
                                    }
                                }
                            }
                            None
                        },
                    }
                } else {
                    proof {
                        assert forall|x: BorrowedValueParams| v.dv() != #[trigger] x.jval() by {
                            if v.dv() == x.jval() {
                                assert(v.dv()->Obj_0.len() == 1);
                                assert(v.dv()->Obj_0[0].0 == "address"@);
                            }
                        }
                    }
                    None
                }
            },
            _ => None,
        }
    }
}
impl WireRecord for SuppliedParams {
    open spec fn jval(self) -> JsonSpec {
        JsonSpec::Obj(
            seq![
                ("address"@, self.address.jval()),
            ],
        )
    }

    proof fn jval_wf(self) {
        self.address.jval_wf();
        assert forall|k: int| 0 <= k < self.jval()->Obj_0.len() implies json_wf(
            #[trigger] self.jval()->Obj_0[k].1,
        ) by {
            if k == 0 {
                assert(json_wf(self.jval()->Obj_0[0].1));
            }
        }
    }

    fn build_jval(&self) -> (r: JsonVal) {
        let mut entries: Vec<JsonEntry> = Vec::new();
        entries.push(JsonEntry { key: String::from_str("address"), val: self.address.build_jval() });
        let ghost ges = entries@;
        let r = JsonVal::Obj(entries);
        proof {
            let dvs = r.dv()->Obj_0;
            assert(dvs.len() == 1);
            assert(dvs[0] == (ges[0].key@, ges[0].val.dv()));
            assert(r.dv()->Obj_0 =~~= self.jval()->Obj_0);
            assert(r.dv() =~~= self.jval());
            assert(ges[0].val.wf());
        }
        r
    }

    fn from_jval(v: &JsonVal) -> (r: Option<SuppliedParams>) {
        match v {
            JsonVal::Obj(entries) => {
                let shape = entries.len() == 1 && str_eq(entries[0].key.as_str(), "address");
                proof {
                    let dvs = v.dv()->Obj_0;
                    assert(dvs.len() == entries@.len());
                    if entries@.len() == 1 {
                        assert(dvs[0] == (entries@[0].key@, entries@[0].val.dv()));
                    }
                }
                if shape {
                    let g0: Option<Addr> = WireRecord::from_jval(&entries[0].val);
                    match (g0) {
                        (Some(h0)) => {
                            let x = SuppliedParams { address: h0 };
                            proof {
                                assert(x.jval()->Obj_0 =~~= v.dv()->Obj_0);
                                assert(x.jval() =~~= v.dv());
                            }
                            Some(x)
                        },
                        _ => {
                            proof {
                                assert forall|x: SuppliedParams| v.dv() != #[trigger] x.jval() by {
                                    if v.dv() == x.jval() {
                                        assert(v.dv()->Obj_0[0].1 == x.address.jval());
                                    }
                                }
                            }
                            None
                        },
                    }
                } else {
                    proof {
                        assert forall|x: SuppliedParams| v.dv() != #[trigger] x.jval() by {
                            if v.dv() == x.jval() {
                                assert(v.dv()->Obj_0.len() == 1);
                                assert(v.dv()->Obj_0[0].0 == "address"@);
                            }
                        }
                    }
                    None
                }
            },
            _ => None,
        }
    }
}
impl WireRecord for SuppliedValueParams {
    open spec fn jval(self) -> JsonSpec {
        JsonSpec::Obj(
            seq![
                ("address"@, self.address.jval()),
            ],
        )
    }

    proof fn jval_wf(self) {
        self.address.jval_wf();
        assert forall|k: int| 0 <= k < self.jval()->Obj_0.len() implies json_wf(
            #[trigger] self.jval()->Obj_0[k].1,
        ) by {
            if k == 0 {
                assert(json_wf(self.jval()->Obj_0[0].1));
            }
        }
    }

    fn build_jval(&self) -> (r: JsonVal) {
        let mut entries: Vec<JsonEntry> = Vec::new();
        entries.push(JsonEntry { key: String::from_str("address"), val: self.address.build_jval() });
        let ghost ges = entries@;
        let r = JsonVal::Obj(entries);
        proof {
            let dvs = r.dv()->Obj_0;
            assert(dvs.len() == 1);
            assert(dvs[0] == (ges[0].key@, ges[0].val.dv()));
            assert(r.dv()->Obj_0 =~~= self.jval()->Obj_0);
            assert(r.dv() =~~= self.jval());
            assert(ges[0].val.wf());
        }
        r
    }

    fn from_jval(v: &JsonVal) -> (r: Option<SuppliedValueParams>) {
        match v {
            JsonVal::Obj(entries) => {
                let shape = entries.len() == 1 && str_eq(entries[0].key.as_str(), "address");
                proof {
                    let dvs = v.dv()->Obj_0;
                    assert(dvs.len() == entries@.len());
                    if entries@.len() == 1 {
                        assert(dvs[0] == (entries@[0].key@, entries@[0].val.dv()));
                    }
                }
                if shape {
                    let g0: Option<Addr> = WireRecord::from_jval(&entries[0].val);
                    match (g0) {
                        (Some(h0)) => {
                            let x = SuppliedValueParams { address: h0 };
                            proof {
                                assert(x.jval()->Obj_0 =~~= v.dv()->Obj_0);
                                assert(x.jval() =~~= v.dv());
                            }
                            Some(x)
                        },
                        _ => {
                            proof {
                                assert forall|x: SuppliedValueParams| v.dv() != #[trigger] x.jval() by {
                                    if v.dv() == x.jval() {
                                        assert(v.dv()->Obj_0[0].1 == x.address.jval());
                                    }
                                }
                            }
                            None
                        },
                    }
                } else {
                    proof {
                        assert forall|x: SuppliedValueParams| v.dv() != #[trigger] x.jval() by {
                            if v.dv() == x.jval() {
                                assert(v.dv()->Obj_0.len() == 1);
                                assert(v.dv()->Obj_0[0].0 == "address"@);
                            }
                        }
                    }
                    None
                }
            },
            _ => None,
        }
    }
}
impl WireRecord for CollateralParams {
    open spec fn jval(self) -> JsonSpec {
        JsonSpec::Obj(
            seq![
                ("address"@, self.address.jval()),
            ],
        )
    }

    proof fn jval_wf(self) {
        self.address.jval_wf();
        assert forall|k: int| 0 <= k < self.jval()->Obj_0.len() implies json_wf(
            #[trigger] self.jval()->Obj_0[k].1,
        ) by {
            if k == 0 {
                assert(json_wf(self.jval()->Obj_0[0].1));
            }
        }
    }

    fn build_jval(&self) -> (r: JsonVal) {
        let mut entries: Vec<JsonEntry> = Vec::new();
        entries.push(JsonEntry { key: String::from_str("address"), val: self.address.build_jval() });
        let ghost ges = entries@;
        let r = JsonVal::Obj(entries);
        proof {
            let dvs = r.dv()->Obj_0;
            assert(dvs.len() == 1);
            assert(dvs[0] == (ges[0].key@, ges[0].val.dv()));
            assert(r.dv()->Obj_0 =~~= self.jval()->Obj_0);
            assert(r.dv() =~~= self.jval());
            assert(ges[0].val.wf());
        }
        r
    }

    fn from_jval(v: &JsonVal) -> (r: Option<CollateralParams>) {
        match v {
            JsonVal::Obj(entries) => {
                let shape = entries.len() == 1 && str_eq(entries[0].key.as_str(), "address");
                proof {
                    let dvs = v.dv()->Obj_0;
                    assert(dvs.len() == entries@.len());
                    if entries@.len() == 1 {
                        assert(dvs[0] == (entries@[0].key@, entries@[0].val.dv()));
                    }
                }
                if shape {
                    let g0: Option<Addr> = WireRecord::from_jval(&entries[0].val);
                    match (g0) {
                        (Some(h0)) => {
                            let x = CollateralParams { address: h0 };
                            proof {
                                assert(x.jval()->Obj_0 =~~= v.dv()->Obj_0);
                                assert(x.jval() =~~= v.dv());
                            }
                            Some(x)
                        },
                        _ => {
                            proof {
                                assert forall|x: CollateralParams| v.dv() != #[trigger] x.jval() by {
                                    if v.dv() == x.jval() {
                                        assert(v.dv()->Obj_0[0].1 == x.address.jval());
                                    }
                                }
                            }
                            None
                        },
                    }
                } else {
                    proof {
                        assert forall|x: CollateralParams| v.dv() != #[trigger] x.jval() by {
                            if v.dv() == x.jval() {
                                assert(v.dv()->Obj_0.len() == 1);
                                assert(v.dv()->Obj_0[0].0 == "address"@);
                            }
                        }
                    }
                    None
                }
            },
            _ => None,
        }
    }
}
impl WireRecord for CollateralValueParams {
    open spec fn jval(self) -> JsonSpec {
        JsonSpec::Obj(
            seq![
                ("address"@, self.address.jval()),
            ],
        )
    }

    proof fn jval_wf(self) {
        self.address.jval_wf();
        assert forall|k: int| 0 <= k < self.jval()->Obj_0.len() implies json_wf(
            #[trigger] self.jval()->Obj_0[k].1,
        ) by {
            if k == 0 {
                assert(json_wf(self.jval()->Obj_0[0].1));
            }
        }
    }

    fn build_jval(&self) -> (r: JsonVal) {
        let mut entries: Vec<JsonEntry> = Vec::new();
        entries.push(JsonEntry { key: String::from_str("address"), val: self.address.build_jval() });
        let ghost ges = entries@;
        let r = JsonVal::Obj(entries);
        proof {
            let dvs = r.dv()->Obj_0;
            assert(dvs.len() == 1);
            assert(dvs[0] == (ges[0].key@, ges[0].val.dv()));
            assert(r.dv()->Obj_0 =~~= self.jval()->Obj_0);
            assert(r.dv() =~~= self.jval());
            assert(ges[0].val.wf());
        }
        r
    }

    fn from_jval(v: &JsonVal) -> (r: Option<CollateralValueParams>) {
        match v {
            JsonVal::Obj(entries) => {
                let shape = entries.len() == 1 && str_eq(entries[0].key.as_str(), "address");
                proof {
                    let dvs = v.dv()->Obj_0;
                    assert(dvs.len() == entries@.len());
                    if entries@.len() == 1 {
                        assert(dvs[0] == (entries@[0].key@, entries@[0].val.dv()));
                    }
                }
                if shape {
                    let g0: Option<Addr> = WireRecord::from_jval(&entries[0].val);
                    match (g0) {
                        (Some(h0)) => {
                            let x = CollateralValueParams { address: h0 };
                            proof {
                                assert(x.jval()->Obj_0 =~~= v.dv()->Obj_0);
                                assert(x.jval() =~~= v.dv());
                            }
                            Some(x)
                        },
                        _ => {
                            proof {
                                assert forall|x: CollateralValueParams| v.dv() != #[trigger] x.jval() by {
                                    if v.dv() == x.jval() {
                                        assert(v.dv()->Obj_0[0].1 == x.address.jval());
                                    }
                                }
                            }
                            None
                        },
                    }
                } else {
                    proof {
                        assert forall|x: CollateralValueParams| v.dv() != #[trigger] x.jval() by {
                            if v.dv() == x.jval() {
                                assert(v.dv()->Obj_0.len() == 1);
                                assert(v.dv()->Obj_0[0].0 == "address"@);
                            }
                        }
                    }
                    None
                }
            },
            _ => None,
        }
    }
}
/// One account's borrows, of the earlier schema.
#[derive(Clone, Debug, PartialEq, Eq)]
pub struct BorrowedResponse {
    pub borrowed: Vec<Coin>,
}
impl WireRecord for BorrowedResponse {
    open spec fn jval(self) -> JsonSpec {
        JsonSpec::Obj(
            seq![
                ("borrowed"@, self.borrowed.jval()),
            ],
        )
    }

    proof fn jval_wf(self) {
        self.borrowed.jval_wf();
        assert forall|k: int| 0 <= k < self.jval()->Obj_0.len() implies json_wf(
            #[trigger] self.jval()->Obj_0[k].1,
        ) by {
            if k == 0 {
                assert(json_wf(self.jval()->Obj_0[0].1));
            }
        }
    }

    fn build_jval(&self) -> (r: JsonVal) {
        let mut entries: Vec<JsonEntry> = Vec::new();
        entries.push(JsonEntry { key: String::from_str("borrowed"), val: self.borrowed.build_jval() });
        let ghost ges = entries@;
        let r = JsonVal::Obj(entries);
        proof {
            let dvs = r.dv()->Obj_0;
            assert(dvs.len() == 1);
            assert(dvs[0] == (ges[0].key@, ges[0].val.dv()));
            assert(r.dv()->Obj_0 =~~= self.jval()->Obj_0);
            assert(r.dv() =~~= self.jval());
            assert(ges[0].val.wf());
        }
        r
    }

    fn from_jval(v: &JsonVal) -> (r: Option<BorrowedResponse>) {
        match v {
            JsonVal::Obj(entries) => {
                let shape = entries.len() == 1 && str_eq(entries[0].key.as_str(), "borrowed");
                proof {
                    let dvs = v.dv()->Obj_0;
                    assert(dvs.len() == entries@.len());
                    if entries@.len() == 1 {
                        assert(dvs[0] == (entries@[0].key@, entries@[0].val.dv()));
                    }
                }
                if shape {
                    let g0: Option<Vec<Coin>> = WireRecord::from_jval(&entries[0].val);
                    match (g0) {
                        (Some(h0)) => {
                            let x = BorrowedResponse { borrowed: h0 };
                            proof {
                                assert(x.jval()->Obj_0 =~~= v.dv()->Obj_0);
                                assert(x.jval() =~~= v.dv());
                            }
                            Some(x)
                        },
                        _ => {
                            proof {
                                assert forall|x: BorrowedResponse| v.dv() != #[trigger] x.jval() by {
                                    if v.dv() == x.jval() {
                                        assert(v.dv()->Obj_0[0].1 == x.borrowed.jval());
                                    }
                                }
                            }
                            None
                        },
                    }
                } else {
                    proof {
                        assert forall|x: BorrowedResponse| v.dv() != #[trigger] x.jval() by {
                            if v.dv() == x.jval() {
                                assert(v.dv()->Obj_0.len() == 1);
                                assert(v.dv()->Obj_0[0].0 == "borrowed"@);
                            }
                        }
                    }
                    None
                }
            },
            _ => None,
        }
    }
}
/// One account's supplies, of the earlier schema.
#[derive(Clone, Debug, PartialEq, Eq)]
pub struct SuppliedResponse {
    pub supplied: Vec<Coin>,
}
impl WireRecord for SuppliedResponse {
    open spec fn jval(self) -> JsonSpec {
        JsonSpec::Obj(
            seq![
                ("supplied"@, self.supplied.jval()),
            ],
        )
    }

    proof fn jval_wf(self) {
        self.supplied.jval_wf();
        assert forall|k: int| 0 <= k < self.jval()->Obj_0.len() implies json_wf(
            #[trigger] self.jval()->Obj_0[k].1,
        ) by {
            if k == 0 {
                assert(json_wf(self.jval()->Obj_0[0].1));
            }
        }
    }

    fn build_jval(&self) -> (r: JsonVal) {
        let mut entries: Vec<JsonEntry> = Vec::new();
        entries.push(JsonEntry { key: String::from_str("supplied"), val: self.supplied.build_jval() });
        let ghost ges = entries@;
        let r = JsonVal::Obj(entries);
        proof {
            let dvs = r.dv()->Obj_0;
            assert(dvs.len() == 1);
            assert(dvs[0] == (ges[0].key@, ges[0].val.dv()));
            assert(r.dv()->Obj_0 =~~= self.jval()->Obj_0);
            assert(r.dv() =~~= self.jval());
            assert(ges[0].val.wf());
        }
        r
    }

    fn from_jval(v: &JsonVal) -> (r: Option<SuppliedResponse>) {
        match v {
            JsonVal::Obj(entries) => {
                let shape = entries.len() == 1 && str_eq(entries[0].key.as_str(), "supplied");
                proof {
                    let dvs = v.dv()->Obj_0;
                    assert(dvs.len() == entries@.len());
                    if entries@.len() == 1 {
                        assert(dvs[0] == (entries@[0].key@, entries@[0].val.dv()));
                    }
                }
                if shape {
                    let g0: Option<Vec<Coin>> = WireRecord::from_jval(&entries[0].val);
                    match (g0) {
                        (Some(h0)) => {
                            let x = SuppliedResponse { supplied: h0 };
                            proof {
                                assert(x.jval()->Obj_0 =~~= v.dv()->Obj_0);
                                assert(x.jval() =~~= v.dv());
                            }
                            Some(x)
                        },
                        _ => {
                            proof {
                                assert forall|x: SuppliedResponse| v.dv() != #[trigger] x.jval() by {
                                    if v.dv() == x.jval() {
                                        assert(v.dv()->Obj_0[0].1 == x.supplied.jval());
                                    }
                                }
                            }
                            None
                        },
                    }
                } else {
                    proof {
                        assert forall|x: SuppliedResponse| v.dv() != #[trigger] x.jval() by {
                            if v.dv() == x.jval() {
                                assert(v.dv()->Obj_0.len() == 1);
                                assert(v.dv()->Obj_0[0].0 == "supplied"@);
                            }
                        }
                    }
                    None
                }
            },
            _ => None,
        }
    }
}
/// One account's supply value, of the earlier schema.
#[derive(Clone, Debug, PartialEq, Eq)]
pub struct SuppliedValueResponse {
    pub supplied_value: Decimal256,
}
impl WireRecord for SuppliedValueResponse {
    open spec fn jval(self) -> JsonSpec {
        JsonSpec::Obj(
            seq![
                ("supplied_value"@, self.supplied_value.jval()),
            ],
        )
    }

    proof fn jval_wf(self) {
        self.supplied_value.jval_wf();
        assert forall|k: int| 0 <= k < self.jval()->Obj_0.len() implies json_wf(
            #[trigger] self.jval()->Obj_0[k].1,
        ) by {
            if k == 0 {
                assert(json_wf(self.jval()->Obj_0[0].1));
            }
        }
    }

    fn build_jval(&self) -> (r: JsonVal) {
        let mut entries: Vec<JsonEntry> = Vec::new();
        entries.push(JsonEntry { key: String::from_str("supplied_value"), val: self.supplied_value.build_jval() });
        let ghost ges = entries@;
        let r = JsonVal::Obj(entries);
        proof {
            let dvs = r.dv()->Obj_0;
            assert(dvs.len() == 1);
            assert(dvs[0] == (ges[0].key@, ges[0].val.dv()));
            assert(r.dv()->Obj_0 =~~= self.jval()->Obj_0);
            assert(r.dv() =~~= self.jval());
            assert(ges[0].val.wf());
        }
        r
    }

    fn from_jval(v: &JsonVal) -> (r: Option<SuppliedValueResponse>) {
        match v {
            JsonVal::Obj(entries) => {
                let shape = entries.len() == 1 && str_eq(entries[0].key.as_str(), "supplied_value");
                proof {
                    let dvs = v.dv()->Obj_0;
                    assert(dvs.len() == entries@.len());
                    if entries@.len() == 1 {
                        assert(dvs[0] == (entries@[0].key@, entries@[0].val.dv()));
                    }
                }
                if shape {
                    let g0: Option<Decimal256> = WireRecord::from_jval(&entries[0].val);
                    match (g0) {
                        (Some(h0)) => {
                            let x = SuppliedValueResponse { supplied_value: h0 };
                            proof {
                                assert(x.jval()->Obj_0 =~~= v.dv()->Obj_0);
                                assert(x.jval() =~~= v.dv());
                            }
                            Some(x)
                        },
                        _ => {
                            proof {
                                assert forall|x: SuppliedValueResponse| v.dv() != #[trigger] x.jval() by {
                                    if v.dv() == x.jval() {
                                        assert(v.dv()->Obj_0[0].1 == x.supplied_value.jval());
                                    }
                                }
                            }
                            None
                        },
                    }
                } else {
                    proof {
                        assert forall|x: SuppliedValueResponse| v.dv() != #[trigger] x.jval() by {
                            if v.dv() == x.jval() {
                                assert(v.dv()->Obj_0.len() == 1);
                                assert(v.dv()->Obj_0[0].0 == "supplied_value"@);
                            }
                        }
                    }
                    None
                }
            },
            _ => None,
        }
    }
}
/// One account's borrow value, of the earlier schema.
#[derive(Clone, Debug, PartialEq, Eq)]
pub struct BorrowedValueResponse {
    pub borrowed_value: Decimal256,
}
impl WireRecord for BorrowedValueResponse {
    open spec fn jval(self) -> JsonSpec {
        JsonSpec::Obj(
            seq![
                ("borrowed_value"@, self.borrowed_value.jval()),
            ],
        )
    }

    proof fn jval_wf(self) {
        self.borrowed_value.jval_wf();
        assert forall|k: int| 0 <= k < self.jval()->Obj_0.len() implies json_wf(
            #[trigger] self.jval()->Obj_0[k].1,
        ) by {
            if k == 0 {
                assert(json_wf(self.jval()->Obj_0[0].1));
            }
        }
    }

    fn build_jval(&self) -> (r: JsonVal) {
        let mut entries: Vec<JsonEntry> = Vec::new();
        entries.push(JsonEntry { key: String::from_str("borrowed_value"), val: self.borrowed_value.build_jval() });
        let ghost ges = entries@;
        let r = JsonVal::Obj(entries);
        proof {
            let dvs = r.dv()->Obj_0;
            assert(dvs.len() == 1);
            assert(dvs[0] == (ges[0].key@, ges[0].val.dv()));
            assert(r.dv()->Obj_0 =~~= self.jval()->Obj_0);
            assert(r.dv() =~~= self.jval());
            assert(ges[0].val.wf());
        }
        r
    }

    fn from_jval(v: &JsonVal) -> (r: Option<BorrowedValueResponse>) {
        match v {
            JsonVal::Obj(entries) => {
                let shape = entries.len() == 1 && str_eq(entries[0].key.as_str(), "borrowed_value");
                proof {
                    let dvs = v.dv()->Obj_0;
                    assert(dvs.len() == entries@.len());
                    if entries@.len() == 1 {
                        assert(dvs[0] == (entries@[0].key@, entries@[0].val.dv()));
                    }
                }
                if shape {
                    let g0: Option<Decimal256> = WireRecord::from_jval(&entries[0].val);
                    match (g0) {
                        (Some(h0)) => {
                            let x = BorrowedValueResponse { borrowed_value: h0 };
                            proof {
                                assert(x.jval()->Obj_0 =~~= v.dv()->Obj_0);
                                assert(x.jval() =~~= v.dv());
                            }
                            Some(x)
                        },
                        _ => {
                            proof {
                                assert forall|x: BorrowedValueResponse| v.dv() != #[trigger] x.jval() by {
                                    if v.dv() == x.jval() {
                                        assert(v.dv()->Obj_0[0].1 == x.borrowed_value.jval());
                                    }
                                }
                            }
                            None
                        },
                    }
                } else {
                    proof {
                        assert forall|x: BorrowedValueResponse| v.dv() != #[trigger] x.jval() by {
                            if v.dv() == x.jval() {
                                assert(v.dv()->Obj_0.len() == 1);
                                assert(v.dv()->Obj_0[0].0 == "borrowed_value"@);
                            }
                        }
                    }
                    None
                }
            },
            _ => None,
        }
    }
}
/// How much can still be borrowed, of the earlier schema.
#[derive(Clone, Debug, PartialEq, Eq)]
pub struct AvailableBorrowResponse {
    pub amount: Decimal256,
}
impl WireRecord for AvailableBorrowResponse {
    open spec fn jval(self) -> JsonSpec {
        JsonSpec::Obj(
            seq![
                ("amount"@, self.amount.jval()),
            ],
        )
    }

    proof fn jval_wf(self) {
        self.amount.jval_wf();
        assert forall|k: int| 0 <= k < self.jval()->Obj_0.len() implies json_wf(
            #[trigger] self.jval()->Obj_0[k].1,
        ) by {
            if k == 0 {
                assert(json_wf(self.jval()->Obj_0[0].1));
            }
        }
    }

    fn build_jval(&self) -> (r: JsonVal) {
        let mut entries: Vec<JsonEntry> = Vec::new();
        entries.push(JsonEntry { key: String::from_str("amount"), val: self.amount.build_jval() });
        let ghost ges = entries@;
        let r = JsonVal::Obj(entries);
        proof {
            let dvs = r.dv()->Obj_0;
            assert(dvs.len() == 1);
            assert(dvs[0] == (ges[0].key@, ges[0].val.dv()));
            assert(r.dv()->Obj_0 =~~= self.jval()->Obj_0);
            assert(r.dv() =~~= self.jval());
            assert(ges[0].val.wf());
        }
        r
    }

    fn from_jval(v: &JsonVal) -> (r: Option<AvailableBorrowResponse>) {
        match v {
            JsonVal::Obj(entries) => {
                let shape = entries.len() == 1 && str_eq(entries[0].key.as_str(), "amount");
                proof {
                    let dvs = v.dv()->Obj_0;
                    assert(dvs.len() == entries@.len());
                    if entries@.len() == 1 {
                        assert(dvs[0] == (entries@[0].key@, entries@[0].val.dv()));
                    }
                }
                if shape {
                    let g0: Option<Decimal256> = WireRecord::from_jval(&entries[0].val);
                    match (g0) {
                        (Some(h0)) => {
                            let x = AvailableBorrowResponse { amount: h0 };
                            proof {
                                assert(x.jval()->Obj_0 =~~= v.dv()->Obj_0);
                                assert(x.jval() =~~= v.dv());
                            }
                            Some(x)
                        },
                        _ => {
                            proof {
                                assert forall|x: AvailableBorrowResponse| v.dv() != #[trigger] x.jval() by {
                                    if v.dv() == x.jval() {
                                        assert(v.dv()->Obj_0[0].1 == x.amount.jval());
                                    }
                                }
                            }
                            None
                        },
                    }
                } else {
                    proof {
                        assert forall|x: AvailableBorrowResponse| v.dv() != #[trigger] x.jval() by {
                            if v.dv() == x.jval() {
                                assert(v.dv()->Obj_0.len() == 1);
                                assert(v.dv()->Obj_0[0].0 == "amount"@);
                            }
                        }
                    }
                    None
                }
            },
            _ => None,
        }
    }
}
/// One denomination's borrow rate, of the earlier schema.
#[derive(Clone, Debug, PartialEq, Eq)]
pub struct BorrowAPYResponse {
    pub amount: Decimal256,
}
impl WireRecord for BorrowAPYResponse {
    open spec fn jval(self) -> JsonSpec {
        JsonSpec::Obj(
            seq![
                ("amount"@, self.amount.jval()),
            ],
        )
    }

    proof fn jval_wf(self) {
        self.amount.jval_wf();
        assert forall|k: int| 0 <= k < self.jval()->Obj_0.len() implies json_wf(
            #[trigger] self.jval()->Obj_0[k].1,
        ) by {
            if k == 0 {
                assert(json_wf(self.jval()->Obj_0[0].1));
            }
        }
    }

    fn build_jval(&self) -> (r: JsonVal) {
        let mut entries: Vec<JsonEntry> = Vec::new();
        entries.push(JsonEntry { key: String::from_str("amount"), val: self.amount.build_jval() });
        let ghost ges = entries@;
        let r = JsonVal::Obj(entries);
        proof {
            let dvs = r.dv()->Obj_0;
            assert(dvs.len() == 1);
            assert(dvs[0] == (ges[0].key@, ges[0].val.dv()));
            assert(r.dv()->Obj_0 =~~= self.jval()->Obj_0);
            assert(r.dv() =~~= self.jval());
            assert(ges[0].val.wf());
        }
        r
    }

    fn from_jval(v: &JsonVal) -> (r: Option<BorrowAPYResponse>) {
        match v {
            JsonVal::Obj(entries) => {
                let shape = entries.len() == 1 && str_eq(entries[0].key.as_str(), "amount");
                proof {
                    let dvs = v.dv()->Obj_0;
                    assert(dvs.len() == entries@.len());
                    if entries@.len() == 1 {
                        assert(dvs[0] == (entries@[0].key@, entries@[0].val.dv()));
                    }
                }
                if shape {
                    let g0: Option<Decimal256> = WireRecord::from_jval(&entries[0].val);
                    match (g0) {
                        (Some(h0)) => {
                            let x = BorrowAPYResponse { amount: h0 };
                            proof {
                                assert(x.jval()->Obj_0 =~~= v.dv()->Obj_0);
                                assert(x.jval() =~~= v.dv());
                            }
                            Some(x)
                        },
                        _ => {
                            proof {
                                assert forall|x: BorrowAPYResponse| v.dv() != #[trigger] x.jval() by {
                                    if v.dv() == x.jval() {
                                        assert(v.dv()->Obj_0[0].1 == x.amount.jval());
                                    }
                                }
                            }
                            None
                        },
                    }
                } else {
                    proof {
                        assert forall|x: BorrowAPYResponse| v.dv() != #[trigger] x.jval() by {
                            if v.dv() == x.jval() {
                                assert(v.dv()->Obj_0.len() == 1);
                                assert(v.dv()->Obj_0[0].0 == "amount"@);
                            }
                        }
                    }
                    None
                }
            },
            _ => None,
        }
    }
}
/// One denomination's supply rate, of the earlier schema.
#[derive(Clone, Debug, PartialEq, Eq)]
pub struct SupplyAPYResponse {
    pub apy: Decimal256,
}
impl WireRecord for SupplyAPYResponse {
    open spec fn jval(self) -> JsonSpec {
        JsonSpec::Obj(
            seq![
                ("apy"@, self.apy.jval()),
            ],
        )
    }

    proof fn jval_wf(self) {
        self.apy.jval_wf();
        assert forall|k: int| 0 <= k < self.jval()->Obj_0.len() implies json_wf(
            #[trigger] self.jval()->Obj_0[k].1,
        ) by {
            if k == 0 {
                assert(json_wf(self.jval()->Obj_0[0].1));
            }
        }
    }

    fn build_jval(&self) -> (r: JsonVal) {
        let mut entries: Vec<JsonEntry> = Vec::new();
        entries.push(JsonEntry { key: String::from_str("apy"), val: self.apy.build_jval() });
        let ghost ges = entries@;
        let r = JsonVal::Obj(entries);
        proof {
            let dvs = r.dv()->Obj_0;
            assert(dvs.len() == 1);
            assert(dvs[0] == (ges[0].key@, ges[0].val.dv()));
            assert(r.dv()->Obj_0 =~~= self.jval()->Obj_0);
            assert(r.dv() =~~= self.jval());
            assert(ges[0].val.wf());
        }
        r
    }

    fn from_jval(v: &JsonVal) -> (r: Option<SupplyAPYResponse>) {
        match v {
            JsonVal::Obj(entries) => {
                let shape = entries.len() == 1 && str_eq(entries[0].key.as_str(), "apy");
                proof {
                    let dvs = v.dv()->Obj_0;
                    assert(dvs.len() == entries@.len());
                    if entries@.len() == 1 {
                        assert(dvs[0] == (entries@[0].key@, entries@[0].val.dv()));
                    }
                }
                if shape {
                    let g0: Option<Decimal256> = WireRecord::from_jval(&entries[0].val);
                    match (g0) {
                        (Some(h0)) => {
                            let x = SupplyAPYResponse { apy: h0 };
                            proof {
                                assert(x.jval()->Obj_0 =~~= v.dv()->Obj_0);
                                assert(x.jval() =~~= v.dv());
                            }
                            Some(x)
                        },
                        _ => {
                            proof {
                                assert forall|x: SupplyAPYResponse| v.dv() != #[trigger] x.jval() by {
                                    if v.dv() == x.jval() {
                                        assert(v.dv()->Obj_0[0].1 == x.apy.jval());
                                    }
                                }
                            }
                            None
                        },
                    }
                } else {
                    proof {
                        assert forall|x: SupplyAPYResponse| v.dv() != #[trigger] x.jval() by {
                            if v.dv() == x.jval() {
                                assert(v.dv()->Obj_0.len() == 1);
                                assert(v.dv()->Obj_0[0].0 == "apy"@);
                            }
                        }
                    }
                    None
                }
            },
            _ => None,
        }
    }
}
/// One denomination's market size in USD, of the earlier schema.
#[derive(Clone, Debug, PartialEq, Eq)]
pub struct MarketSizeResponse {
    pub market_size_usd: Decimal256,
}
impl WireRecord for MarketSizeResponse {
    open spec fn jval(self) -> JsonSpec {
        JsonSpec::Obj(
            seq![
                ("market_size_usd"@, self.market_size_usd.jval()),
            ],
        )
    }

    proof fn jval_wf(self) {
        self.market_size_usd.jval_wf();
        assert forall|k: int| 0 <= k < self.jval()->Obj_0.len() implies json_wf(
            #[trigger] self.jval()->Obj_0[k].1,
        ) by {
            if k == 0 {
                assert(json_wf(self.jval()->Obj_0[0].1));
            }
        }
    }

    fn build_jval(&self) -> (r: JsonVal) {
        let mut entries: Vec<JsonEntry> = Vec::new();
        entries.push(JsonEntry { key: String::from_str("market_size_usd"), val: self.market_size_usd.build_jval() });
        let ghost ges = entries@;
        let r = JsonVal::Obj(entries);
        proof {
            let dvs = r.dv()->Obj_0;
            assert(dvs.len() == 1);
            assert(dvs[0] == (ges[0].key@, ges[0].val.dv()));
            assert(r.dv()->Obj_0 =~~= self.jval()->Obj_0);
            assert(r.dv() =~~= self.jval());
            assert(ges[0].val.wf());
        }
        r
    }

    fn from_jval(v: &JsonVal) -> (r: Option<MarketSizeResponse>) {
        match v {
            JsonVal::Obj(entries) => {
                let shape = entries.len() == 1 && str_eq(entries[0].key.as_str(), "market_size_usd");
                proof {
                    let dvs = v.dv()->Obj_0;
                    assert(dvs.len() == entries@.len());
                    if entries@.len() == 1 {
                        assert(dvs[0] == (entries@[0].key@, entries@[0].val.dv()));
                    }
                }
                if shape {
                    let g0: Option<Decimal256> = WireRecord::from_jval(&entries[0].val);
                    match (g0) {
                        (Some(h0)) => {
                            let x = MarketSizeResponse { market_size_usd: h0 };
                            proof {
                                assert(x.jval()->Obj_0 =~~= v.dv()->Obj_0);
                                assert(x.jval() =~~= v.dv());
                            }
                            Some(x)
                        },
                        _ => {
                            proof {
                                assert forall|x: MarketSizeResponse| v.dv() != #[trigger] x.jval() by {
                                    if v.dv() == x.jval() {
                                        assert(v.dv()->Obj_0[0].1 == x.market_size_usd.jval());
                                    }
                                }
                            }
                            None
                        },
                    }
                } else {
                    proof {
                        assert forall|x: MarketSizeResponse| v.dv() != #[trigger] x.jval() by {
                            if v.dv() == x.jval() {
                                assert(v.dv()->Obj_0.len() == 1);
                                assert(v.dv()->Obj_0[0].0 == "market_size_usd"@);
                            }
                        }
                    }
                    None
                }
            },
            _ => None,
        }
    }
}
/// One denomination's market size in tokens, of the earlier schema.
#[derive(Clone, Debug, PartialEq, Eq)]
pub struct TokenMarketSizeResponse {
    pub market_size_usd: Decimal256,
}
impl WireRecord for TokenMarketSizeResponse {
    open spec fn jval(self) -> JsonSpec {
        JsonSpec::Obj(
            seq![
                ("market_size_usd"@, self.market_size_usd.jval()),
            ],
        )
    }

    proof fn jval_wf(self) {
        self.market_size_usd.jval_wf();
        assert forall|k: int| 0 <= k < self.jval()->Obj_0.len() implies json_wf(
            #[trigger] self.jval()->Obj_0[k].1,
        ) by {
            if k == 0 {
                assert(json_wf(self.jval()->Obj_0[0].1));
            }
        }
    }

    fn build_jval(&self) -> (r: JsonVal) {
        let mut entries: Vec<JsonEntry> = Vec::new();
        entries.push(JsonEntry { key: String::from_str("market_size_usd"), val: self.market_size_usd.build_jval() });
        let ghost ges = entries@;
        let r = JsonVal::Obj(entries);
        proof {
            let dvs = r.dv()->Obj_0;
            assert(dvs.len() == 1);
            assert(dvs[0] == (ges[0].key@, ges[0].val.dv()));
            assert(r.dv()->Obj_0 =~~= self.jval()->Obj_0);
            assert(r.dv() =~~= self.jval());
            assert(ges[0].val.wf());
        }
        r
    }

    fn from_jval(v: &JsonVal) -> (r: Option<TokenMarketSizeResponse>) {
        match v {
            JsonVal::Obj(entries) => {
                let shape = entries.len() == 1 && str_eq(entries[0].key.as_str(), "market_size_usd");
                proof {
                    let dvs = v.dv()->Obj_0;
                    assert(dvs.len() == entries@.len());
                    if entries@.len() == 1 {
                        assert(dvs[0] == (entries@[0].key@, entries@[0].val.dv()));
                    }
                }
                if shape {
                    let g0: Option<Decimal256> = WireRecord::from_jval(&entries[0].val);
                    match (g0) {
                        (Some(h0)) => {
                            let x = TokenMarketSizeResponse { market_size_usd: h0 };
                            proof {
                                assert(x.jval()->Obj_0 =~~= v.dv()->Obj_0);
                                assert(x.jval() =~~= v.dv());
                            }
                            Some(x)
                        },
                        _ => {
                            proof {
                                assert forall|x: TokenMarketSizeResponse| v.dv() != #[trigger] x.jval() by {
                                    if v.dv() == x.jval() {
                                        assert(v.dv()->Obj_0[0].1 == x.market_size_usd.jval());
                                    }
                                }
                            }
                            None
                        },
                    }
                } else {
                    proof {
                        assert forall|x: TokenMarketSizeResponse| v.dv() != #[trigger] x.jval() by {
                            if v.dv() == x.jval() {
                                assert(v.dv()->Obj_0.len() == 1);
                                assert(v.dv()->Obj_0[0].0 == "market_size_usd"@);
                            }
                        }
                    }
                    None
                }
            },
            _ => None,
        }
    }
}
/// One denomination's reserved amount, of the earlier schema.
#[derive(Clone, Debug, PartialEq, Eq)]
pub struct ReserveAmountResponse {
    pub amount: Decimal256,
}
impl WireRecord for ReserveAmountResponse {
    open spec fn jval(self) -> JsonSpec {
        JsonSpec::Obj(
            seq![
                ("amount"@, self.amount.jval()),
            ],
        )
    }

    proof fn jval_wf(self) {
        self.amount.jval_wf();
        assert forall|k: int| 0 <= k < self.jval()->Obj_0.len() implies json_wf(
            #[trigger] self.jval()->Obj_0[k].1,
        ) by {
            if k == 0 {
                assert(json_wf(self.jval()->Obj_0[0].1));
            }
        }
    }

    fn build_jval(&self) -> (r: JsonVal) {
        let mut entries: Vec<JsonEntry> = Vec::new();
        entries.push(JsonEntry { key: String::from_str("amount"), val: self.amount.build_jval() });
        let ghost ges = entries@;
        let r = JsonVal::Obj(entries);
        proof {
            let dvs = r.dv()->Obj_0;
            assert(dvs.len() == 1);
            assert(dvs[0] == (ges[0].key@, ges[0].val.dv()));
            assert(r.dv()->Obj_0 =~~= self.jval()->Obj_0);
            assert(r.dv() =~~= self.jval());
            assert(ges[0].val.wf());
        }
        r
    }

    fn from_jval(v: &JsonVal) -> (r: Option<ReserveAmountResponse>) {
        match v {
            JsonVal::Obj(entries) => {
                let shape = entries.len() == 1 && str_eq(entries[0].key.as_str(), "amount");
                proof {
                    let dvs = v.dv()->Obj_0;
                    assert(dvs.len() == entries@.len());
                    if entries@.len() == 1 {
                        assert(dvs[0] == (entries@[0].key@, entries@[0].val.dv()));
                    }
                }
                if shape {
                    let g0: Option<Decimal256> = WireRecord::from_jval(&entries[0].val);
                    match (g0) {
                        (Some(h0)) => {
                            let x = ReserveAmountResponse { amount: h0 };
                            proof {
                                assert(x.jval()->Obj_0 =~~= v.dv()->Obj_0);
                                assert(x.jval() =~~= v.dv());
                            }
                            Some(x)
                        },
                        _ => {
                            proof {
                                assert forall|x: ReserveAmountResponse| v.dv() != #[trigger] x.jval() by {
                                    if v.dv() == x.jval() {
                                        assert(v.dv()->Obj_0[0].1 == x.amount.jval());
                                    }
                                }
                            }
                            None
                        },
                    }
                } else {
                    proof {
                        assert forall|x: ReserveAmountResponse| v.dv() != #[trigger] x.jval() by {
                            if v.dv() == x.jval() {
                                assert(v.dv()->Obj_0.len() == 1);
                                assert(v.dv()->Obj_0[0].0 == "amount"@);
                            }
                        }
                    }
                    None
                }
            },
            _ => None,
        }
    }
}
/// One account's collateral, of the earlier schema.
#[derive(Clone, Debug, PartialEq, Eq)]
pub struct CollateralResponse {
    pub collateral: Vec<Coin>,
}
impl WireRecord for CollateralResponse {
    open spec fn jval(self) -> JsonSpec {
        JsonSpec::Obj(
            seq![
                ("collateral"@, self.collateral.jval()),
            ],
        )
    }

    proof fn jval_wf(self) {
        self.collateral.jval_wf();
        assert forall|k: int| 0 <= k < self.jval()->Obj_0.len() implies json_wf(
            #[trigger] self.jval()->Obj_0[k].1,
        ) by {
            if k == 0 {
                assert(json_wf(self.jval()->Obj_0[0].1));
            }
        }
    }

    fn build_jval(&self) -> (r: JsonVal) {
        let mut entries: Vec<JsonEntry> = Vec::new();
        entries.push(JsonEntry { key: String::from_str("collateral"), val: self.collateral.build_jval() });
        let ghost ges = entries@;
        let r = JsonVal::Obj(entries);
        proof {
            let dvs = r.dv()->Obj_0;
            assert(dvs.len() == 1);
            assert(dvs[0] == (ges[0].key@, ges[0].val.dv()));
            assert(r.dv()->Obj_0 =~~= self.jval()->Obj_0);
            assert(r.dv() =~~= self.jval());
            assert(ges[0].val.wf());
        }
        r
    }

    fn from_jval(v: &JsonVal) -> (r: Option<CollateralResponse>) {
        match v {
            JsonVal::Obj(entries) => {
                let shape = entries.len() == 1 && str_eq(entries[0].key.as_str(), "collateral");
                proof {
                    let dvs = v.dv()->Obj_0;
                    assert(dvs.len() == entries@.len());
                    if entries@.len() == 1 {
                        assert(dvs[0] == (entries@[0].key@, entries@[0].val.dv()));
                    }
                }
                if shape {
                    let g0: Option<Vec<Coin>> = WireRecord::from_jval(&entries[0].val);
                    match (g0) {
                        (Some(h0)) => {
                            let x = CollateralResponse { collateral: h0 };
                            proof {
                                assert(x.jval()->Obj_0 =~~= v.dv()->Obj_0);
                                assert(x.jval() =~~= v.dv());
                            }
                            Some(x)
                        },
                        _ => {
                            proof {
                                assert forall|x: CollateralResponse| v.dv() != #[trigger] x.jval() by {
                                    if v.dv() == x.jval() {
                                        assert(v.dv()->Obj_0[0].1 == x.collateral.jval());
                                    }
                                }
                            }
                            None
                        },
                    }
                } else {
                    proof {
                        assert forall|x: CollateralResponse| v.dv() != #[trigger] x.jval() by {
                            if v.dv() == x.jval() {
                                assert(v.dv()->Obj_0.len() == 1);
                                assert(v.dv()->Obj_0[0].0 == "collateral"@);
                            }
                        }
                    }
                    None
                }
            },
            _ => None,
        }
    }
}
/// One account's collateral value, of the earlier schema.
#[derive(Clone, Debug, PartialEq, Eq)]
pub struct CollateralValueResponse {
    pub collateral_value: Decimal256,
}
impl WireRecord for CollateralValueResponse {
    open spec fn jval(self) -> JsonSpec {
        JsonSpec::Obj(
            seq![
                ("collateral_value"@, self.collateral_value.jval()),
            ],
        )
    }

    proof fn jval_wf(self) {
        self.collateral_value.jval_wf();
        assert forall|k: int| 0 <= k < self.jval()->Obj_0.len() implies json_wf(
            #[trigger] self.jval()->Obj_0[k].1,
        ) by {
            if k == 0 {
                assert(json_wf(self.jval()->Obj_0[0].1));
            }
        }
    }

    fn build_jval(&self) -> (r: JsonVal) {
        let mut entries: Vec<JsonEntry> = Vec::new();
        entries.push(JsonEntry { key: String::from_str("collateral_value"), val: self.collateral_value.build_jval() });
        let ghost ges = entries@;
        let r = JsonVal::Obj(entries);
        proof {
            let dvs = r.dv()->Obj_0;
            assert(dvs.len() == 1);
            assert(dvs[0] == (ges[0].key@, ges[0].val.dv()));
            assert(r.dv()->Obj_0 =~~= self.jval()->Obj_0);
            assert(r.dv() =~~= self.jval());
            assert(ges[0].val.wf());
        }
        r
    }

    fn from_jval(v: &JsonVal) -> (r: Option<CollateralValueResponse>) {
        match v {
            JsonVal::Obj(entries) => {
                let shape = entries.len() == 1 && str_eq(entries[0].key.as_str(), "collateral_value");
                proof {
                    let dvs = v.dv()->Obj_0;
                    assert(dvs.len() == entries@.len());
                    if entries@.len() == 1 {
                        assert(dvs[0] == (entries@[0].key@, entries@[0].val.dv()));
                    }
                }
                if shape {
                    let g0: Option<Decimal256> = WireRecord::from_jval(&entries[0].val);
                    match (g0) {
                        (Some(h0)) => {
                            let x = CollateralValueResponse { collateral_value: h0 };
                            proof {
                                assert(x.jval()->Obj_0 =~~= v.dv()->Obj_0);
                                assert(x.jval() =~~= v.dv());
                            }
                            Some(x)
                        },
                        _ => {
                            proof {
                                assert forall|x: CollateralValueResponse| v.dv() != #[trigger] x.jval() by {
                                    if v.dv() == x.jval() {
                                        assert(v.dv()->Obj_0[0].1 == x.collateral_value.jval());
                                    }
                                }
                            }
                            None
                        },
                    }
                } else {
                    proof {
                        assert forall|x: CollateralValueResponse| v.dv() != #[trigger] x.jval() by {
                            if v.dv() == x.jval() {
                                assert(v.dv()->Obj_0.len() == 1);
                                assert(v.dv()->Obj_0[0].0 == "collateral_value"@);
                            }
                        }
                    }
                    None
                }
            },
            _ => None,
        }
    }
}
/// One denomination's uToken exchange rate, of the earlier schema.
#[derive(Clone, Debug, PartialEq, Eq)]
pub struct ExchangeRateResponse {
    pub exchange_rate: Decimal256,
}
impl WireRecord for ExchangeRateResponse {
    open spec fn jval(self) -> JsonSpec {
        JsonSpec::Obj(
            seq![
                ("exchange_rate"@, self.exchange_rate.jval()),
            ],
        )
    }

    proof fn jval_wf(self) {
        self.exchange_rate.jval_wf();
        assert forall|k: int| 0 <= k < self.jval()->Obj_0.len() implies json_wf(
            #[trigger] self.jval()->Obj_0[k].1,
        ) by {
            if k == 0 {
                assert(json_wf(self.jval()->Obj_0[0].1));
            }
        }
    }

    fn build_jval(&self) -> (r: JsonVal) {
        let mut entries: Vec<JsonEntry> = Vec::new();
        entries.push(JsonEntry { key: String::from_str("exchange_rate"), val: self.exchange_rate.build_jval() });
        let ghost ges = entries@;
        let r = JsonVal::Obj(entries);
        proof {
            let dvs = r.dv()->Obj_0;
            assert(dvs.len() == 1);
            assert(dvs[0] == (ges[0].key@, ges[0].val.dv()));
            assert(r.dv()->Obj_0 =~~= self.jval()->Obj_0);
            assert(r.dv() =~~= self.jval());
            assert(ges[0].val.wf());
        }
        r
    }

    fn from_jval(v: &JsonVal) -> (r: Option<ExchangeRateResponse>) {
        match v {
            JsonVal::Obj(entries) => {
                let shape = entries.len() == 1 && str_eq(entries[0].key.as_str(), "exchange_rate");
                proof {
                    let dvs = v.dv()->Obj_0;
                    assert(dvs.len() == entries@.len());
                    if entries@.len() == 1 {
                        assert(dvs[0] == (entries@[0].key@, entries@[0].val.dv()));
                    }
                }
                if shape {
                    let g0: Option<Decimal256> = WireRecord::from_jval(&entries[0].val);
                    match (g0) {
                        (Some(h0)) => {
                            let x = ExchangeRateResponse { exchange_rate: h0 };
                            proof {
                                assert(x.jval()->Obj_0 =~~= v.dv()->Obj_0);
                                assert(x.jval() =~~= v.dv());
                            }
                            Some(x)
                        },
                        _ => {
                            proof {
                                assert forall|x: ExchangeRateResponse| v.dv() != #[trigger] x.jval() by {
                                    if v.dv() == x.jval() {
                                        assert(v.dv()->Obj_0[0].1 == x.exchange_rate.jval());
                                    }
                                }
                            }
                            None
                        },
                    }
                } else {
                    proof {
                        assert forall|x: ExchangeRateResponse| v.dv() != #[trigger] x.jval() by {
                            if v.dv() == x.jval() {
                                assert(v.dv()->Obj_0.len() == 1);
                                assert(v.dv()->Obj_0[0].0 == "exchange_rate"@);
                            }
                        }
                    }
                    None
                }
            },
            _ => None,
        }
    }
}
/// The message envelope of the earlier schema: an explicit integer
/// discriminant under the fixed key, plus exactly one populated slot keyed
/// by the code's canonical name. This wire form both writes and reads.
#[derive(Clone, Debug, PartialEq, Eq)]
pub struct NumericUmeeMsg {
    slot: NumericMsgSlot,
}

/// The populated slot of a numeric message envelope.
#[derive(Clone, Debug, PartialEq, Eq)]
enum NumericMsgSlot {
    Supply(crate::msg_leverage::SupplyParams),
    Withdraw(crate::msg_leverage::WithdrawParams),
    Collateralize(crate::msg_leverage::CollateralizeParams),
    Decollateralize(crate::msg_leverage::DecollateralizeParams),
    Borrow(crate::msg_leverage::BorrowParams),
    Repay(crate::msg_leverage::RepayParams),
}

impl NumericUmeeMsg {
    /// The integer code of the populated slot.
    pub closed spec fn assigned_code(self) -> u16 {
        match self.slot {
            NumericMsgSlot::Supply(_) => 1,
            NumericMsgSlot::Withdraw(_) => 2,
            NumericMsgSlot::Collateralize(_) => 3,
            NumericMsgSlot::Decollateralize(_) => 4,
            NumericMsgSlot::Borrow(_) => 5,
            NumericMsgSlot::Repay(_) => 6,
        }
    }

    /// The wire shape of the populated slot's payload.
    pub closed spec fn payload_jval(self) -> JsonSpec {
        match self.slot {
            NumericMsgSlot::Supply(p) => p.jval(),
            NumericMsgSlot::Withdraw(p) => p.jval(),
            NumericMsgSlot::Collateralize(p) => p.jval(),
            NumericMsgSlot::Decollateralize(p) => p.jval(),
            NumericMsgSlot::Borrow(p) => p.jval(),
            NumericMsgSlot::Repay(p) => p.jval(),
        }
    }

    /// An envelope is valid exactly when its code resolves to a canonical
    /// name; every envelope a builder produces does.
    pub fn valid(&self) -> (r: bool)
        ensures
            r == (spec_msg_name(self.assigned_code()) != spec_unrecognized()),
            r,
    {
        proof {
            assert(1 <= self.assigned_code() <= 6);
            lemma_legacy_names();
        }
        msg_code_valid(self.assigned_code_exec())
    }

    /// The canonical name of the populated slot, as text.
    pub fn assigned_str(&self) -> (r: String)
        ensures
            r@ == spec_msg_name(self.assigned_code()),
    {
        msg_name(self.assigned_code_exec())
    }

    fn assigned_code_exec(&self) -> (r: u16)
        ensures
            r == self.assigned_code(),
    {
        match &self.slot {
            NumericMsgSlot::Supply(_) => 1,
            NumericMsgSlot::Withdraw(_) => 2,
            NumericMsgSlot::Collateralize(_) => 3,
            NumericMsgSlot::Decollateralize(_) => 4,
            NumericMsgSlot::Borrow(_) => 5,
            NumericMsgSlot::Repay(_) => 6,
        }
    }

    /// The canonical wire text of this envelope.
    pub fn encode(&self) -> (out: String)
        ensures
            out@ == crate::wire::jenc(self.jval()),
    {
        let v = self.build_jval();
        crate::wire::json_emit(&v)
    }

    /// Builds a numeric `supply` message envelope.
    pub fn supply(params: crate::msg_leverage::SupplyParams) -> (r: NumericUmeeMsg)
        ensures
            r.assigned_code() == 1,
            r.jval() == JsonSpec::Obj(
                seq![
                    ("assigned_msg"@, JsonSpec::Int(1)),
                    ("supply"@, params.jval()),
                ],
            ),
    {
        NumericUmeeMsg { slot: NumericMsgSlot::Supply(params) }
    }

    /// Builds a numeric `withdraw` message envelope.
    pub fn withdraw(params: crate::msg_leverage::WithdrawParams) -> (r: NumericUmeeMsg)
        ensures
            r.assigned_code() == 2,
            r.jval() == JsonSpec::Obj(
                seq![
                    ("assigned_msg"@, JsonSpec::Int(2)),
                    ("withdraw"@, params.jval()),
                ],
            ),
    {
        NumericUmeeMsg { slot: NumericMsgSlot::Withdraw(params) }
    }

    /// Builds a numeric `collateralize` message envelope.
    pub fn collateralize(params: crate::msg_leverage::CollateralizeParams) -> (r: NumericUmeeMsg)
        ensures
            r.assigned_code() == 3,
            r.jval() == JsonSpec::Obj(
                seq![
                    ("assigned_msg"@, JsonSpec::Int(3)),
                    ("collateralize"@, params.jval()),
                ],
            ),
    {
        NumericUmeeMsg { slot: NumericMsgSlot::Collateralize(params) }
    }

    /// Builds a numeric `decollateralize` message envelope.
    pub fn decollateralize(params: crate::msg_leverage::DecollateralizeParams) -> (r: NumericUmeeMsg)
        ensures
            r.assigned_code() == 4,
            r.jval() == JsonSpec::Obj(
                seq![
                    ("assigned_msg"@, JsonSpec::Int(4)),
                    ("decollateralize"@, params.jval()),
                ],
            ),
    {
        NumericUmeeMsg { slot: NumericMsgSlot::Decollateralize(params) }
    }

    /// Builds a numeric `borrow` message envelope.
    pub fn borrow(params: crate::msg_leverage::BorrowParams) -> (r: NumericUmeeMsg)
        ensures
            r.assigned_code() == 5,
            r.jval() == JsonSpec::Obj(
                seq![
                    ("assigned_msg"@, JsonSpec::Int(5)),
                    ("borrow"@, params.jval()),
                ],
            ),
    {
        NumericUmeeMsg { slot: NumericMsgSlot::Borrow(params) }
    }

    /// Builds a numeric `repay` message envelope.
    pub fn repay(params: crate::msg_leverage::RepayParams) -> (r: NumericUmeeMsg)
        ensures
            r.assigned_code() == 6,
            r.jval() == JsonSpec::Obj(
                seq![
                    ("assigned_msg"@, JsonSpec::Int(6)),
                    ("repay"@, params.jval()),
                ],
            ),
    {
        NumericUmeeMsg { slot: NumericMsgSlot::Repay(params) }
    }

}

/// Every numeric message envelope's wire record is two entries: the code entry
/// under the fixed key, then the code's payload slot under its name.
proof fn lemma_numericumeemsg_tag(x: NumericUmeeMsg, e: Seq<(Seq<char>, JsonSpec)>)
    requires
        JsonSpec::Obj(e) == x.jval(),
    ensures
        e.len() == 2,
        ({
            ||| (x.slot matches NumericMsgSlot::Supply(q) && e[0] == (
                "assigned_msg"@,
                JsonSpec::Int(1),
            ) && e[1] == ("supply"@, q.jval()))
            ||| (x.slot matches NumericMsgSlot::Withdraw(q) && e[0] == (
                "assigned_msg"@,
                JsonSpec::Int(2),
            ) && e[1] == ("withdraw"@, q.jval()))
            ||| (x.slot matches NumericMsgSlot::Collateralize(q) && e[0] == (
                "assigned_msg"@,
                JsonSpec::Int(3),
            ) && e[1] == ("collateralize"@, q.jval()))
            ||| (x.slot matches NumericMsgSlot::Decollateralize(q) && e[0] == (
                "assigned_msg"@,
                JsonSpec::Int(4),
            ) && e[1] == ("decollateralize"@, q.jval()))
            ||| (x.slot matches NumericMsgSlot::Borrow(q) && e[0] == (
                "assigned_msg"@,
                JsonSpec::Int(5),
            ) && e[1] == ("borrow"@, q.jval()))
            ||| (x.slot matches NumericMsgSlot::Repay(q) && e[0] == (
                "assigned_msg"@,
                JsonSpec::Int(6),
            ) && e[1] == ("repay"@, q.jval()))
        }),
{
    lemma_legacy_names();
    match x.slot {
        NumericMsgSlot::Supply(q) => {
            assert(x.jval()->Obj_0[0] == ("assigned_msg"@, JsonSpec::Int(1)));
            assert(x.jval()->Obj_0[1] == ("supply"@, q.jval()));
        },
        NumericMsgSlot::Withdraw(q) => {
            assert(x.jval()->Obj_0[0] == ("assigned_msg"@, JsonSpec::Int(2)));
            assert(x.jval()->Obj_0[1] == ("withdraw"@, q.jval()));
        },
        NumericMsgSlot::Collateralize(q) => {
            assert(x.jval()->Obj_0[0] == ("assigned_msg"@, JsonSpec::Int(3)));
            assert(x.jval()->Obj_0[1] == ("collateralize"@, q.jval()));
        },
        NumericMsgSlot::Decollateralize(q) => {
            assert(x.jval()->Obj_0[0] == ("assigned_msg"@, JsonSpec::Int(4)));
            assert(x.jval()->Obj_0[1] == ("decollateralize"@, q.jval()));
        },
        NumericMsgSlot::Borrow(q) => {
            assert(x.jval()->Obj_0[0] == ("assigned_msg"@, JsonSpec::Int(5)));
            assert(x.jval()->Obj_0[1] == ("borrow"@, q.jval()));
        },
        NumericMsgSlot::Repay(q) => {
            assert(x.jval()->Obj_0[0] == ("assigned_msg"@, JsonSpec::Int(6)));
            assert(x.jval()->Obj_0[1] == ("repay"@, q.jval()));
        },
    }
}

/// A two-entry numeric wire shape under this code decodes only through
/// its own payload slot.
proof fn lemma_numericumeemsg_reject_supply(e: Seq<(Seq<char>, JsonSpec)>)
    requires
        e.len() == 2,
        e[0].0 == "assigned_msg"@,
        e[0].1 == JsonSpec::Int(1),
        e[1].0 != "supply"@ || (forall|y: crate::msg_leverage::SupplyParams| e[1].1 != #[trigger] y.jval()),
    ensures
        forall|x: NumericUmeeMsg| JsonSpec::Obj(e) != #[trigger] x.jval(),
{
    lemma_legacy_names();
    assert forall|x: NumericUmeeMsg| JsonSpec::Obj(e) != #[trigger] x.jval() by {
        if JsonSpec::Obj(e) == x.jval() {
            lemma_numericumeemsg_tag(x, e);
            match x.slot {
                NumericMsgSlot::Supply(q) => {
                    assert(e[1].1 == q.jval());
                },
                _ => {},
            }
        }
    }
}

/// A two-entry numeric wire shape under this code decodes only through
/// its own payload slot.
proof fn lemma_numericumeemsg_reject_withdraw(e: Seq<(Seq<char>, JsonSpec)>)
    requires
        e.len() == 2,
        e[0].0 == "assigned_msg"@,
        e[0].1 == JsonSpec::Int(2),
        e[1].0 != "withdraw"@ || (forall|y: crate::msg_leverage::WithdrawParams| e[1].1 != #[trigger] y.jval()),
    ensures
        forall|x: NumericUmeeMsg| JsonSpec::Obj(e) != #[trigger] x.jval(),
{
    lemma_legacy_names();
    assert forall|x: NumericUmeeMsg| JsonSpec::Obj(e) != #[trigger] x.jval() by {
        if JsonSpec::Obj(e) == x.jval() {
            lemma_numericumeemsg_tag(x, e);
            match x.slot {
                NumericMsgSlot::Withdraw(q) => {
                    assert(e[1].1 == q.jval());
                },
                _ => {},
            }
        }
    }
}

/// A two-entry numeric wire shape under this code decodes only through
/// its own payload slot.
proof fn lemma_numericumeemsg_reject_collateralize(e: Seq<(Seq<char>, JsonSpec)>)
    requires
        e.len() == 2,
        e[0].0 == "assigned_msg"@,
        e[0].1 == JsonSpec::Int(3),
        e[1].0 != "collateralize"@ || (forall|y: crate::msg_leverage::CollateralizeParams| e[1].1 != #[trigger] y.jval()),
    ensures
        forall|x: NumericUmeeMsg| JsonSpec::Obj(e) != #[trigger] x.jval(),
{
    lemma_legacy_names();
    assert forall|x: NumericUmeeMsg| JsonSpec::Obj(e) != #[trigger] x.jval() by {
        if JsonSpec::Obj(e) == x.jval() {
            lemma_numericumeemsg_tag(x, e);
            match x.slot {
                NumericMsgSlot::Collateralize(q) => {
                    assert(e[1].1 == q.jval());
                },
                _ => {},
            }
        }
    }
}

/// A two-entry numeric wire shape under this code decodes only through
/// its own payload slot.
proof fn lemma_numericumeemsg_reject_decollateralize(e: Seq<(Seq<char>, JsonSpec)>)
    requires
        e.len() == 2,
        e[0].0 == "assigned_msg"@,
        e[0].1 == JsonSpec::Int(4),
        e[1].0 != "decollateralize"@ || (forall|y: crate::msg_leverage::DecollateralizeParams| e[1].1 != #[trigger] y.jval()),
    ensures
        forall|x: NumericUmeeMsg| JsonSpec::Obj(e) != #[trigger] x.jval(),
{
    lemma_legacy_names();
    assert forall|x: NumericUmeeMsg| JsonSpec::Obj(e) != #[trigger] x.jval() by {
        if JsonSpec::Obj(e) == x.jval() {
            lemma_numericumeemsg_tag(x, e);
            match x.slot {
                NumericMsgSlot::Decollateralize(q) => {
                    assert(e[1].1 == q.jval());
                },
                _ => {},
            }
        }
    }
}

/// A two-entry numeric wire shape under this code decodes only through
/// its own payload slot.
proof fn lemma_numericumeemsg_reject_borrow(e: Seq<(Seq<char>, JsonSpec)>)
    requires
        e.len() == 2,
        e[0].0 == "assigned_msg"@,
        e[0].1 == JsonSpec::Int(5),
        e[1].0 != "borrow"@ || (forall|y: crate::msg_leverage::BorrowParams| e[1].1 != #[trigger] y.jval()),
    ensures
        forall|x: NumericUmeeMsg| JsonSpec::Obj(e) != #[trigger] x.jval(),
{
    lemma_legacy_names();
    assert forall|x: NumericUmeeMsg| JsonSpec::Obj(e) != #[trigger] x.jval() by {
        if JsonSpec::Obj(e) == x.jval() {
            lemma_numericumeemsg_tag(x, e);
            match x.slot {
                NumericMsgSlot::Borrow(q) => {
                    assert(e[1].1 == q.jval());
                },
                _ => {},
            }
        }
    }
}

/// A two-entry numeric wire shape under this code decodes only through
/// its own payload slot.
proof fn lemma_numericumeemsg_reject_repay(e: Seq<(Seq<char>, JsonSpec)>)
    requires
        e.len() == 2,
        e[0].0 == "assigned_msg"@,
        e[0].1 == JsonSpec::Int(6),
        e[1].0 != "repay"@ || (forall|y: crate::msg_leverage::RepayParams| e[1].1 != #[trigger] y.jval()),
    ensures
        forall|x: NumericUmeeMsg| JsonSpec::Obj(e) != #[trigger] x.jval(),
{
    lemma_legacy_names();
    assert forall|x: NumericUmeeMsg| JsonSpec::Obj(e) != #[trigger] x.jval() by {
        if JsonSpec::Obj(e) == x.jval() {
            lemma_numericumeemsg_tag(x, e);
            match x.slot {
                NumericMsgSlot::Repay(q) => {
                    assert(e[1].1 == q.jval());
                },
                _ => {},
            }
        }
    }
}

/// A two-entry numeric wire shape under a code outside the catalog, or
/// not shaped as a numeric envelope at all, decodes to nothing.
proof fn lemma_numericumeemsg_reject_shape(v: JsonSpec)
    requires
        v matches JsonSpec::Obj(e) ==> e.len() != 2 || e[0].0 != "assigned_msg"@ || (
        e[0].1 matches JsonSpec::Int(c) ==> !(1 <= c <= 6)),
    ensures
        forall|x: NumericUmeeMsg| v != #[trigger] x.jval(),
{
    assert forall|x: NumericUmeeMsg| v != #[trigger] x.jval() by {
        if v == x.jval() {
            lemma_numericumeemsg_tag(x, v->Obj_0);
        }
    }
}

impl WireRecord for NumericUmeeMsg {
    /// The wire shape: the code under the fixed discriminant key, then the
    /// one populated slot under the code's canonical name.
    closed spec fn jval(self) -> JsonSpec {
        JsonSpec::Obj(
            seq![
                ("assigned_msg"@, JsonSpec::Int(self.assigned_code() as int)),
                (spec_msg_name(self.assigned_code()), self.payload_jval()),
            ],
        )
    }

    proof fn jval_wf(self) {
        match self.slot {
            NumericMsgSlot::Supply(p) => {
                p.jval_wf();
                assert forall|k: int| 0 <= k < self.jval()->Obj_0.len() implies json_wf(
                    #[trigger] self.jval()->Obj_0[k].1,
                ) by {
                    if k == 0 {
                        assert(json_wf(self.jval()->Obj_0[0].1));
                    } else {
                        assert(json_wf(self.jval()->Obj_0[1].1));
                    }
                }
            },
            NumericMsgSlot::Withdraw(p) => {
                p.jval_wf();
                assert forall|k: int| 0 <= k < self.jval()->Obj_0.len() implies json_wf(
                    #[trigger] self.jval()->Obj_0[k].1,
                ) by {
                    if k == 0 {
                        assert(json_wf(self.jval()->Obj_0[0].1));
                    } else {
                        assert(json_wf(self.jval()->Obj_0[1].1));
                    }
                }
            },
            NumericMsgSlot::Collateralize(p) => {
                p.jval_wf();
                assert forall|k: int| 0 <= k < self.jval()->Obj_0.len() implies json_wf(
                    #[trigger] self.jval()->Obj_0[k].1,
                ) by {
                    if k == 0 {
                        assert(json_wf(self.jval()->Obj_0[0].1));
                    } else {
                        assert(json_wf(self.jval()->Obj_0[1].1));
                    }
                }
            },
            NumericMsgSlot::Decollateralize(p) => {
                p.jval_wf();
                assert forall|k: int| 0 <= k < self.jval()->Obj_0.len() implies json_wf(
                    #[trigger] self.jval()->Obj_0[k].1,
                ) by {
                    if k == 0 {
                        assert(json_wf(self.jval()->Obj_0[0].1));
                    } else {
                        assert(json_wf(self.jval()->Obj_0[1].1));
                    }
                }
            },
            NumericMsgSlot::Borrow(p) => {
                p.jval_wf();
                assert forall|k: int| 0 <= k < self.jval()->Obj_0.len() implies json_wf(
                    #[trigger] self.jval()->Obj_0[k].1,
                ) by {
                    if k == 0 {
                        assert(json_wf(self.jval()->Obj_0[0].1));
                    } else {
                        assert(json_wf(self.jval()->Obj_0[1].1));
                    }
                }
            },
            NumericMsgSlot::Repay(p) => {
                p.jval_wf();
                assert forall|k: int| 0 <= k < self.jval()->Obj_0.len() implies json_wf(
                    #[trigger] self.jval()->Obj_0[k].1,
                ) by {
                    if k == 0 {
                        assert(json_wf(self.jval()->Obj_0[0].1));
                    } else {
                        assert(json_wf(self.jval()->Obj_0[1].1));
                    }
                }
            },
        }
    }

    fn build_jval(&self) -> (r: JsonVal) {
        let name = self.assigned_str();
        let code = self.assigned_code_exec();
        let payload = match &self.slot {
            NumericMsgSlot::Supply(p) => p.build_jval(),
            NumericMsgSlot::Withdraw(p) => p.build_jval(),
            NumericMsgSlot::Collateralize(p) => p.build_jval(),
            NumericMsgSlot::Decollateralize(p) => p.build_jval(),
            NumericMsgSlot::Borrow(p) => p.build_jval(),
            NumericMsgSlot::Repay(p) => p.build_jval(),
        };
        let mut entries: Vec<JsonEntry> = Vec::new();
        entries.push(JsonEntry { key: String::from_str("assigned_msg"), val: JsonVal::UInt(code as u64) });
        entries.push(JsonEntry { key: name, val: payload });
        let ghost ges = entries@;
        let r = JsonVal::Obj(entries);
        proof {
            let dvs = r.dv()->Obj_0;
            assert(dvs.len() == 2);
            assert(dvs[0] == (ges[0].key@, ges[0].val.dv()));
            assert(dvs[1] == (ges[1].key@, ges[1].val.dv()));
            assert(r.dv()->Obj_0 =~~= self.jval()->Obj_0);
            assert(r.dv() =~~= self.jval());
            assert(ges[0].val.wf() && ges[1].val.wf());
        }
        r
    }

    #[verifier::rlimit(50)]
    fn from_jval(v: &JsonVal) -> (r: Option<NumericUmeeMsg>) {
        match v {
            JsonVal::Obj(entries) => {
                let head = entries.len() == 2 && str_eq(entries[0].key.as_str(), "assigned_msg");
                proof {
                    let dvs = v.dv()->Obj_0;
                    assert(dvs.len() == entries@.len());
                    if entries@.len() == 2 {
                        assert(dvs[0] == (entries@[0].key@, entries@[0].val.dv()));
                        assert(dvs[1] == (entries@[1].key@, entries@[1].val.dv()));
                        assert(dvs =~~= seq![
                            (entries@[0].key@, entries@[0].val.dv()),
                            (entries@[1].key@, entries@[1].val.dv()),
                        ]);
                        assert(v.dv() =~~= JsonSpec::Obj(seq![
                            (entries@[0].key@, entries@[0].val.dv()),
                            (entries@[1].key@, entries@[1].val.dv()),
                        ]));
                    }
                }
                if head {
                    match &entries[0].val {
                        JsonVal::UInt(code) => {
                            if *code == 1 {
                                if str_eq(entries[1].key.as_str(), "supply") {
                                    let p: Option<crate::msg_leverage::SupplyParams> = WireRecord::from_jval(&entries[1].val);
                                    match p {
                                        Some(p) => {
                                            let x = NumericUmeeMsg { slot: NumericMsgSlot::Supply(p) };
                                            proof {
                                                assert(x.jval()->Obj_0 =~~= v.dv()->Obj_0);
                                                assert(x.jval() =~~= v.dv());
                                            }
                                            Some(x)
                                        },
                                        None => {
                                            proof {
                                                lemma_numericumeemsg_reject_supply(v.dv()->Obj_0);
                                            }
                                            None
                                        },
                                    }
                                } else {
                                    proof {
                                        lemma_numericumeemsg_reject_supply(v.dv()->Obj_0);
                                    }
                                    None
                                }
                            } else if *code == 2 {
                                if str_eq(entries[1].key.as_str(), "withdraw") {
                                    let p: Option<crate::msg_leverage::WithdrawParams> = WireRecord::from_jval(&entries[1].val);
                                    match p {
                                        Some(p) => {
                                            let x = NumericUmeeMsg { slot: NumericMsgSlot::Withdraw(p) };
                                            proof {
                                                assert(x.jval()->Obj_0 =~~= v.dv()->Obj_0);
                                                assert(x.jval() =~~= v.dv());
                                            }
                                            Some(x)
                                        },
                                        None => {
                                            proof {
                                                lemma_numericumeemsg_reject_withdraw(v.dv()->Obj_0);
                                            }
                                            None
                                        },
                                    }
                                } else {
                                    proof {
                                        lemma_numericumeemsg_reject_withdraw(v.dv()->Obj_0);
                                    }
                                    None
                                }
                            } else if *code == 3 {
                                if str_eq(entries[1].key.as_str(), "collateralize") {
                                    let p: Option<crate::msg_leverage::CollateralizeParams> = WireRecord::from_jval(&entries[1].val);
                                    match p {
                                        Some(p) => {
                                            let x = NumericUmeeMsg { slot: NumericMsgSlot::Collateralize(p) };
                                            proof {
                                                assert(x.jval()->Obj_0 =~~= v.dv()->Obj_0);
                                                assert(x.jval() =~~= v.dv());
                                            }
                                            Some(x)
                                        },
                                        None => {
                                            proof {
                                                lemma_numericumeemsg_reject_collateralize(v.dv()->Obj_0);
                                            }
                                            None
                                        },
                                    }
                                } else {
                                    proof {
                                        lemma_numericumeemsg_reject_collateralize(v.dv()->Obj_0);
                                    }
                                    None
                                }
                            } else if *code == 4 {
                                if str_eq(entries[1].key.as_str(), "decollateralize") {
                                    let p: Option<crate::msg_leverage::DecollateralizeParams> = WireRecord::from_jval(&entries[1].val);
                                    match p {
                                        Some(p) => {
                                            let x = NumericUmeeMsg { slot: NumericMsgSlot::Decollateralize(p) };
                                            proof {
                                                assert(x.jval()->Obj_0 =~~= v.dv()->Obj_0);
                                                assert(x.jval() =~~= v.dv());
                                            }
                                            Some(x)
                                        },
                                        None => {
                                            proof {
                                                lemma_numericumeemsg_reject_decollateralize(v.dv()->Obj_0);
                                            }
                                            None
                                        },
                                    }
                                } else {
                                    proof {
                                        lemma_numericumeemsg_reject_decollateralize(v.dv()->Obj_0);
                                    }
                                    None
                                }
                            } else if *code == 5 {
                                if str_eq(entries[1].key.as_str(), "borrow") {
                                    let p: Option<crate::msg_leverage::BorrowParams> = WireRecord::from_jval(&entries[1].val);
                                    match p {
                                        Some(p) => {
                                            let x = NumericUmeeMsg { slot: NumericMsgSlot::Borrow(p) };
                                            proof {
                                                assert(x.jval()->Obj_0 =~~= v.dv()->Obj_0);
                                                assert(x.jval() =~~= v.dv());
                                            }
                                            Some(x)
                                        },
                                        None => {
                                            proof {
                                                lemma_numericumeemsg_reject_borrow(v.dv()->Obj_0);
                                            }
                                            None
                                        },
                                    }
                                } else {
                                    proof {
                                        lemma_numericumeemsg_reject_borrow(v.dv()->Obj_0);
                                    }
                                    None
                                }
                            } else if *code == 6 {
                                if str_eq(entries[1].key.as_str(), "repay") {
                                    let p: Option<crate::msg_leverage::RepayParams> = WireRecord::from_jval(&entries[1].val);
                                    match p {
                                        Some(p) => {
                                            let x = NumericUmeeMsg { slot: NumericMsgSlot::Repay(p) };
                                            proof {
                                                assert(x.jval()->Obj_0 =~~= v.dv()->Obj_0);
                                                assert(x.jval() =~~= v.dv());
                                            }
                                            Some(x)
                                        },
                                        None => {
                                            proof {
                                                lemma_numericumeemsg_reject_repay(v.dv()->Obj_0);
                                            }
                                            None
                                        },
                                    }
                                } else {
                                    proof {
                                        lemma_numericumeemsg_reject_repay(v.dv()->Obj_0);
                                    }
                                    None
                                }
                            } else {
                                proof {
                                    lemma_numericumeemsg_reject_shape(v.dv());
                                }
                                None
                            }
                        },
                        _ => {
                            proof {
                                lemma_numericumeemsg_reject_shape(v.dv());
                            }
                            None
                        },
                    }
                } else {
                    proof {
                        lemma_numericumeemsg_reject_shape(v.dv());
                    }
                    None
                }
            },
            _ => {
                proof {
                    lemma_numericumeemsg_reject_shape(v.dv());
                }
                None
            },
        }
    }
}

/// The query envelope of the earlier schema: an explicit integer
/// discriminant under the fixed key, plus exactly one populated slot keyed
/// by the code's canonical name. The oracle
/// range was appended after the leverage range this envelope carries.
#[derive(Clone, Debug, PartialEq, Eq)]
pub struct NumericUmeeQuery {
    slot: NumericQuerySlot,
}

/// The populated slot of a numeric query envelope.
#[derive(Clone, Debug, PartialEq, Eq)]
enum NumericQuerySlot {
    Borrowed(BorrowedParams),
    ExchangeRates(crate::query_oracle::ExchangeRatesParams),
    RegisteredTokens(crate::query_leverage::RegisteredTokensParams),
    LeverageParameters(crate::query_leverage::LeverageParametersParams),
    BorrowedValue(BorrowedValueParams),
    Supplied(SuppliedParams),
    SuppliedValue(SuppliedValueParams),
    AvailableBorrow(AvailableBorrowParams),
    BorrowApy(BorrowAPYParams),
    SupplyApy(SupplyAPYParams),
    MarketSize(MarketSizeParams),
    TokenMarketSize(TokenMarketSizeParams),
    ReserveAmount(ReserveAmountParams),
    Collateral(CollateralParams),
    CollateralValue(CollateralValueParams),
    ExchangeRate(ExchangeRateParams),
}

impl NumericUmeeQuery {
    /// The integer code of the populated slot.
    pub closed spec fn assigned_code(self) -> u16 {
        match self.slot {
            NumericQuerySlot::Borrowed(_) => 1,
            NumericQuerySlot::ExchangeRates(_) => 2,
            NumericQuerySlot::RegisteredTokens(_) => 3,
            NumericQuerySlot::LeverageParameters(_) => 4,
            NumericQuerySlot::BorrowedValue(_) => 5,
            NumericQuerySlot::Supplied(_) => 6,
            NumericQuerySlot::SuppliedValue(_) => 7,
            NumericQuerySlot::AvailableBorrow(_) => 8,
            NumericQuerySlot::BorrowApy(_) => 9,
            NumericQuerySlot::SupplyApy(_) => 10,
            NumericQuerySlot::MarketSize(_) => 11,
            NumericQuerySlot::TokenMarketSize(_) => 12,
            NumericQuerySlot::ReserveAmount(_) => 13,
            NumericQuerySlot::Collateral(_) => 14,
            NumericQuerySlot::CollateralValue(_) => 15,
            NumericQuerySlot::ExchangeRate(_) => 16,
        }
    }

    /// The wire shape of the populated slot's payload.
    pub closed spec fn payload_jval(self) -> JsonSpec {
        match self.slot {
            NumericQuerySlot::Borrowed(p) => p.jval(),
            NumericQuerySlot::ExchangeRates(p) => p.jval(),
            NumericQuerySlot::RegisteredTokens(p) => p.jval(),
            NumericQuerySlot::LeverageParameters(p) => p.jval(),
            NumericQuerySlot::BorrowedValue(p) => p.jval(),
            NumericQuerySlot::Supplied(p) => p.jval(),
            NumericQuerySlot::SuppliedValue(p) => p.jval(),
            NumericQuerySlot::AvailableBorrow(p) => p.jval(),
            NumericQuerySlot::BorrowApy(p) => p.jval(),
            NumericQuerySlot::SupplyApy(p) => p.jval(),
            NumericQuerySlot::MarketSize(p) => p.jval(),
            NumericQuerySlot::TokenMarketSize(p) => p.jval(),
            NumericQuerySlot::ReserveAmount(p) => p.jval(),
            NumericQuerySlot::Collateral(p) => p.jval(),
            NumericQuerySlot::CollateralValue(p) => p.jval(),
            NumericQuerySlot::ExchangeRate(p) => p.jval(),
        }
    }

    /// An envelope is valid exactly when its code resolves to a canonical
    /// name; every envelope a builder produces does.
    pub fn valid(&self) -> (r: bool)
        ensures
            r == (spec_query_name(self.assigned_code()) != spec_unrecognized()),
            r,
    {
        proof {
            assert(1 <= self.assigned_code() <= 16);
            lemma_legacy_names();
        }
        query_code_valid(self.assigned_code_exec())
    }

    /// The canonical name of the populated slot, as text.
    pub fn assigned_str(&self) -> (r: String)
        ensures
            r@ == spec_query_name(self.assigned_code()),
    {
        query_name(self.assigned_code_exec())
    }

    fn assigned_code_exec(&self) -> (r: u16)
        ensures
            r == self.assigned_code(),
    {
        match &self.slot {
            NumericQuerySlot::Borrowed(_) => 1,
            NumericQuerySlot::ExchangeRates(_) => 2,
            NumericQuerySlot::RegisteredTokens(_) => 3,
            NumericQuerySlot::LeverageParameters(_) => 4,
            NumericQuerySlot::BorrowedValue(_) => 5,
            NumericQuerySlot::Supplied(_) => 6,
            NumericQuerySlot::SuppliedValue(_) => 7,
            NumericQuerySlot::AvailableBorrow(_) => 8,
            NumericQuerySlot::BorrowApy(_) => 9,
            NumericQuerySlot::SupplyApy(_) => 10,
            NumericQuerySlot::MarketSize(_) => 11,
            NumericQuerySlot::TokenMarketSize(_) => 12,
            NumericQuerySlot::ReserveAmount(_) => 13,
            NumericQuerySlot::Collateral(_) => 14,
            NumericQuerySlot::CollateralValue(_) => 15,
            NumericQuerySlot::ExchangeRate(_) => 16,
        }
    }

    /// The canonical wire text of this envelope.
    pub fn encode(&self) -> (out: String)
        ensures
            out@ == crate::wire::jenc(self.jval()),
    {
        let v = self.build_jval();
        crate::wire::json_emit(&v)
    }

    /// Builds a numeric `borrowed` query envelope.
    pub fn borrowed(params: BorrowedParams) -> (r: NumericUmeeQuery)
        ensures
            r.assigned_code() == 1,
            r.jval() == JsonSpec::Obj(
                seq![
                    ("assigned_query"@, JsonSpec::Int(1)),
                    ("borrowed"@, params.jval()),
                ],
            ),
    {
        NumericUmeeQuery { slot: NumericQuerySlot::Borrowed(params) }
    }

    /// Builds a numeric `exchange_rates` query envelope.
    pub fn exchange_rates(params: crate::query_oracle::ExchangeRatesParams) -> (r: NumericUmeeQuery)
        ensures
            r.assigned_code() == 2,
            r.jval() == JsonSpec::Obj(
                seq![
                    ("assigned_query"@, JsonSpec::Int(2)),
                    ("exchange_rates"@, params.jval()),
                ],
            ),
    {
        NumericUmeeQuery { slot: NumericQuerySlot::ExchangeRates(params) }
    }

    /// Builds a numeric `registered_tokens` query envelope.
    pub fn registered_tokens(params: crate::query_leverage::RegisteredTokensParams) -> (r: NumericUmeeQuery)
        ensures
            r.assigned_code() == 3,
            r.jval() == JsonSpec::Obj(
                seq![
                    ("assigned_query"@, JsonSpec::Int(3)),
                    ("registered_tokens"@, params.jval()),
                ],
            ),
    {
        NumericUmeeQuery { slot: NumericQuerySlot::RegisteredTokens(params) }
    }

    /// Builds a numeric `leverage_parameters` query envelope.
    pub fn leverage_parameters(params: crate::query_leverage::LeverageParametersParams) -> (r: NumericUmeeQuery)
        ensures
            r.assigned_code() == 4,
            r.jval() == JsonSpec::Obj(
                seq![
                    ("assigned_query"@, JsonSpec::Int(4)),
                    ("leverage_parameters"@, params.jval()),
                ],
            ),
    {
        NumericUmeeQuery { slot: NumericQuerySlot::LeverageParameters(params) }
    }

    /// Builds a numeric `borrowed_value` query envelope.
    pub fn borrowed_value(params: BorrowedValueParams) -> (r: NumericUmeeQuery)
        ensures
            r.assigned_code() == 5,
            r.jval() == JsonSpec::Obj(
                seq![
                    ("assigned_query"@, JsonSpec::Int(5)),
                    ("borrowed_value"@, params.jval()),
                ],
            ),
    {
        NumericUmeeQuery { slot: NumericQuerySlot::BorrowedValue(params) }
    }

    /// Builds a numeric `supplied` query envelope.
    pub fn supplied(params: SuppliedParams) -> (r: NumericUmeeQuery)
        ensures
            r.assigned_code() == 6,
            r.jval() == JsonSpec::Obj(
                seq![
                    ("assigned_query"@, JsonSpec::Int(6)),
                    ("supplied"@, params.jval()),
                ],
            ),
    {
        NumericUmeeQuery { slot: NumericQuerySlot::Supplied(params) }
    }

    /// Builds a numeric `supplied_value` query envelope.
    pub fn supplied_value(params: SuppliedValueParams) -> (r: NumericUmeeQuery)
        ensures
            r.assigned_code() == 7,
            r.jval() == JsonSpec::Obj(
                seq![
                    ("assigned_query"@, JsonSpec::Int(7)),
                    ("supplied_value"@, params.jval()),
                ],
            ),
    {
        NumericUmeeQuery { slot: NumericQuerySlot::SuppliedValue(params) }
    }

    /// Builds a numeric `available_borrow` query envelope.
    pub fn available_borrow(params: AvailableBorrowParams) -> (r: NumericUmeeQuery)
        ensures
            r.assigned_code() == 8,
            r.jval() == JsonSpec::Obj(
                seq![
                    ("assigned_query"@, JsonSpec::Int(8)),
                    ("available_borrow"@, params.jval()),
                ],
            ),
    {
        NumericUmeeQuery { slot: NumericQuerySlot::AvailableBorrow(params) }
    }

    /// Builds a numeric `borrow_apy` query envelope.
    pub fn borrow_apy(params: BorrowAPYParams) -> (r: NumericUmeeQuery)
        ensures
            r.assigned_code() == 9,
            r.jval() == JsonSpec::Obj(
                seq![
                    ("assigned_query"@, JsonSpec::Int(9)),
                    ("borrow_apy"@, params.jval()),
                ],
            ),
    {
        NumericUmeeQuery { slot: NumericQuerySlot::BorrowApy(params) }
    }

    /// Builds a numeric `supply_apy` query envelope.
    pub fn supply_apy(params: SupplyAPYParams) -> (r: NumericUmeeQuery)
        ensures
            r.assigned_code() == 10,
            r.jval() == JsonSpec::Obj(
                seq![
                    ("assigned_query"@, JsonSpec::Int(10)),
                    ("supply_apy"@, params.jval()),
                ],
            ),
    {
        NumericUmeeQuery { slot: NumericQuerySlot::SupplyApy(params) }
    }

    /// Builds a numeric `market_size` query envelope.
    pub fn market_size(params: MarketSizeParams) -> (r: NumericUmeeQuery)
        ensures
            r.assigned_code() == 11,
            r.jval() == JsonSpec::Obj(
                seq![
                    ("assigned_query"@, JsonSpec::Int(11)),
                    ("market_size"@, params.jval()),
                ],
            ),
    {
        NumericUmeeQuery { slot: NumericQuerySlot::MarketSize(params) }
    }

    /// Builds a numeric `token_market_size` query envelope.
    pub fn token_market_size(params: TokenMarketSizeParams) -> (r: NumericUmeeQuery)
        ensures
            r.assigned_code() == 12,
            r.jval() == JsonSpec::Obj(
                seq![
                    ("assigned_query"@, JsonSpec::Int(12)),
                    ("token_market_size"@, params.jval()),
                ],
            ),
    {
        NumericUmeeQuery { slot: NumericQuerySlot::TokenMarketSize(params) }
    }

    /// Builds a numeric `reserve_amount` query envelope.
    pub fn reserve_amount(params: ReserveAmountParams) -> (r: NumericUmeeQuery)
        ensures
            r.assigned_code() == 13,
            r.jval() == JsonSpec::Obj(
                seq![
                    ("assigned_query"@, JsonSpec::Int(13)),
                    ("reserve_amount"@, params.jval()),
                ],
            ),
    {
        NumericUmeeQuery { slot: NumericQuerySlot::ReserveAmount(params) }
    }

    /// Builds a numeric `collateral` query envelope.
    pub fn collateral(params: CollateralParams) -> (r: NumericUmeeQuery)
        ensures
            r.assigned_code() == 14,
            r.jval() == JsonSpec::Obj(
                seq![
                    ("assigned_query"@, JsonSpec::Int(14)),
                    ("collateral"@, params.jval()),
                ],
            ),
    {
        NumericUmeeQuery { slot: NumericQuerySlot::Collateral(params) }
    }

    /// Builds a numeric `collateral_value` query envelope.
    pub fn collateral_value(params: CollateralValueParams) -> (r: NumericUmeeQuery)
        ensures
            r.assigned_code() == 15,
            r.jval() == JsonSpec::Obj(
                seq![
                    ("assigned_query"@, JsonSpec::Int(15)),
                    ("collateral_value"@, params.jval()),
                ],
            ),
    {
        NumericUmeeQuery { slot: NumericQuerySlot::CollateralValue(params) }
    }

    /// Builds a numeric `exchange_rate` query envelope.
    pub fn exchange_rate(params: ExchangeRateParams) -> (r: NumericUmeeQuery)
        ensures
            r.assigned_code() == 16,
            r.jval() == JsonSpec::Obj(
                seq![
                    ("assigned_query"@, JsonSpec::Int(16)),
                    ("exchange_rate"@, params.jval()),
                ],
            ),
    {
        NumericUmeeQuery { slot: NumericQuerySlot::ExchangeRate(params) }
    }

}

/// Every numeric query envelope's wire record is two entries: the code entry
/// under the fixed key, then the code's payload slot under its name.
proof fn lemma_numericumeequery_tag(x: NumericUmeeQuery, e: Seq<(Seq<char>, JsonSpec)>)
    requires
        JsonSpec::Obj(e) == x.jval(),
    ensures
        e.len() == 2,
        ({
            ||| (x.slot matches NumericQuerySlot::Borrowed(q) && e[0] == (
                "assigned_query"@,
                JsonSpec::Int(1),
            ) && e[1] == ("borrowed"@, q.jval()))
            ||| (x.slot matches NumericQuerySlot::ExchangeRates(q) && e[0] == (
                "assigned_query"@,
                JsonSpec::Int(2),
            ) && e[1] == ("exchange_rates"@, q.jval()))
            ||| (x.slot matches NumericQuerySlot::RegisteredTokens(q) && e[0] == (
                "assigned_query"@,
                JsonSpec::Int(3),
            ) && e[1] == ("registered_tokens"@, q.jval()))
            ||| (x.slot matches NumericQuerySlot::LeverageParameters(q) && e[0] == (
                "assigned_query"@,
                JsonSpec::Int(4),
            ) && e[1] == ("leverage_parameters"@, q.jval()))
            ||| (x.slot matches NumericQuerySlot::BorrowedValue(q) && e[0] == (
                "assigned_query"@,
                JsonSpec::Int(5),
            ) && e[1] == ("borrowed_value"@, q.jval()))
            ||| (x.slot matches NumericQuerySlot::Supplied(q) && e[0] == (
                "assigned_query"@,
                JsonSpec::Int(6),
            ) && e[1] == ("supplied"@, q.jval()))
            ||| (x.slot matches NumericQuerySlot::SuppliedValue(q) && e[0] == (
                "assigned_query"@,
                JsonSpec::Int(7),
            ) && e[1] == ("supplied_value"@, q.jval()))
            ||| (x.slot matches NumericQuerySlot::AvailableBorrow(q) && e[0] == (
                "assigned_query"@,
                JsonSpec::Int(8),
            ) && e[1] == ("available_borrow"@, q.jval()))
            ||| (x.slot matches NumericQuerySlot::BorrowApy(q) && e[0] == (
                "assigned_query"@,
                JsonSpec::Int(9),
            ) && e[1] == ("borrow_apy"@, q.jval()))
            ||| (x.slot matches NumericQuerySlot::SupplyApy(q) && e[0] == (
                "assigned_query"@,
                JsonSpec::Int(10),
            ) && e[1] == ("supply_apy"@, q.jval()))
            ||| (x.slot matches NumericQuerySlot::MarketSize(q) && e[0] == (
                "assigned_query"@,
                JsonSpec::Int(11),
            ) && e[1] == ("market_size"@, q.jval()))
            ||| (x.slot matches NumericQuerySlot::TokenMarketSize(q) && e[0] == (
                "assigned_query"@,
                JsonSpec::Int(12),
            ) && e[1] == ("token_market_size"@, q.jval()))
            ||| (x.slot matches NumericQuerySlot::ReserveAmount(q) && e[0] == (
                "assigned_query"@,
                JsonSpec::Int(13),
            ) && e[1] == ("reserve_amount"@, q.jval()))
            ||| (x.slot matches NumericQuerySlot::Collateral(q) && e[0] == (
                "assigned_query"@,
                JsonSpec::Int(14),
            ) && e[1] == ("collateral"@, q.jval()))
            ||| (x.slot matches NumericQuerySlot::CollateralValue(q) && e[0] == (
                "assigned_query"@,
                JsonSpec::Int(15),
            ) && e[1] == ("collateral_value"@, q.jval()))
            ||| (x.slot matches NumericQuerySlot::ExchangeRate(q) && e[0] == (
                "assigned_query"@,
                JsonSpec::Int(16),
            ) && e[1] == ("exchange_rate"@, q.jval()))
        }),
{
    lemma_legacy_names();
    match x.slot {
        NumericQuerySlot::Borrowed(q) => {
            assert(x.jval()->Obj_0[0] == ("assigned_query"@, JsonSpec::Int(1)));
            assert(x.jval()->Obj_0[1] == ("borrowed"@, q.jval()));
        },
        NumericQuerySlot::ExchangeRates(q) => {
            assert(x.jval()->Obj_0[0] == ("assigned_query"@, JsonSpec::Int(2)));
            assert(x.jval()->Obj_0[1] == ("exchange_rates"@, q.jval()));
        },
        NumericQuerySlot::RegisteredTokens(q) => {
            assert(x.jval()->Obj_0[0] == ("assigned_query"@, JsonSpec::Int(3)));
            assert(x.jval()->Obj_0[1] == ("registered_tokens"@, q.jval()));
        },
        NumericQuerySlot::LeverageParameters(q) => {
            assert(x.jval()->Obj_0[0] == ("assigned_query"@, JsonSpec::Int(4)));
            assert(x.jval()->Obj_0[1] == ("leverage_parameters"@, q.jval()));
        },
        NumericQuerySlot::BorrowedValue(q) => {
            assert(x.jval()->Obj_0[0] == ("assigned_query"@, JsonSpec::Int(5)));
            assert(x.jval()->Obj_0[1] == ("borrowed_value"@, q.jval()));
        },
        NumericQuerySlot::Supplied(q) => {
            assert(x.jval()->Obj_0[0] == ("assigned_query"@, JsonSpec::Int(6)));
            assert(x.jval()->Obj_0[1] == ("supplied"@, q.jval()));
        },
        NumericQuerySlot::SuppliedValue(q) => {
            assert(x.jval()->Obj_0[0] == ("assigned_query"@, JsonSpec::Int(7)));
            assert(x.jval()->Obj_0[1] == ("supplied_value"@, q.jval()));
        },
        NumericQuerySlot::AvailableBorrow(q) => {
            assert(x.jval()->Obj_0[0] == ("assigned_query"@, JsonSpec::Int(8)));
            assert(x.jval()->Obj_0[1] == ("available_borrow"@, q.jval()));
        },
        NumericQuerySlot::BorrowApy(q) => {
            assert(x.jval()->Obj_0[0] == ("assigned_query"@, JsonSpec::Int(9)));
            assert(x.jval()->Obj_0[1] == ("borrow_apy"@, q.jval()));
        },
        NumericQuerySlot::SupplyApy(q) => {
            assert(x.jval()->Obj_0[0] == ("assigned_query"@, JsonSpec::Int(10)));
            assert(x.jval()->Obj_0[1] == ("supply_apy"@, q.jval()));
        },
        NumericQuerySlot::MarketSize(q) => {
            assert(x.jval()->Obj_0[0] == ("assigned_query"@, JsonSpec::Int(11)));
            assert(x.jval()->Obj_0[1] == ("market_size"@, q.jval()));
        },
        NumericQuerySlot::TokenMarketSize(q) => {
            assert(x.jval()->Obj_0[0] == ("assigned_query"@, JsonSpec::Int(12)));
            assert(x.jval()->Obj_0[1] == ("token_market_size"@, q.jval()));
        },
        NumericQuerySlot::ReserveAmount(q) => {
            assert(x.jval()->Obj_0[0] == ("assigned_query"@, JsonSpec::Int(13)));
            assert(x.jval()->Obj_0[1] == ("reserve_amount"@, q.jval()));
        },
        NumericQuerySlot::Collateral(q) => {
            assert(x.jval()->Obj_0[0] == ("assigned_query"@, JsonSpec::Int(14)));
            assert(x.jval()->Obj_0[1] == ("collateral"@, q.jval()));
        },
        NumericQuerySlot::CollateralValue(q) => {
            assert(x.jval()->Obj_0[0] == ("assigned_query"@, JsonSpec::Int(15)));
            assert(x.jval()->Obj_0[1] == ("collateral_value"@, q.jval()));
        },
        NumericQuerySlot::ExchangeRate(q) => {
            assert(x.jval()->Obj_0[0] == ("assigned_query"@, JsonSpec::Int(16)));
            assert(x.jval()->Obj_0[1] == ("exchange_rate"@, q.jval()));
        },
    }
}

/// A two-entry numeric wire shape under this code decodes only through
/// its own payload slot.
proof fn lemma_numericumeequery_reject_borrowed(e: Seq<(Seq<char>, JsonSpec)>)
    requires
        e.len() == 2,
        e[0].0 == "assigned_query"@,
        e[0].1 == JsonSpec::Int(1),
        e[1].0 != "borrowed"@ || (forall|y: BorrowedParams| e[1].1 != #[trigger] y.jval()),
    ensures
        forall|x: NumericUmeeQuery| JsonSpec::Obj(e) != #[trigger] x.jval(),
{
    lemma_legacy_names();
    assert forall|x: NumericUmeeQuery| JsonSpec::Obj(e) != #[trigger] x.jval() by {
        if JsonSpec::Obj(e) == x.jval() {
            lemma_numericumeequery_tag(x, e);
            match x.slot {
                NumericQuerySlot::Borrowed(q) => {
                    assert(e[1].1 == q.jval());
                },
                _ => {},
            }
        }
    }
}

/// A two-entry numeric wire shape under this code decodes only through
/// its own payload slot.
proof fn lemma_numericumeequery_reject_exchange_rates(e: Seq<(Seq<char>, JsonSpec)>)
    requires
        e.len() == 2,
        e[0].0 == "assigned_query"@,
        e[0].1 == JsonSpec::Int(2),
        e[1].0 != "exchange_rates"@ || (forall|y: crate::query_oracle::ExchangeRatesParams| e[1].1 != #[trigger] y.jval()),
    ensures
        forall|x: NumericUmeeQuery| JsonSpec::Obj(e) != #[trigger] x.jval(),
{
    lemma_legacy_names();
    assert forall|x: NumericUmeeQuery| JsonSpec::Obj(e) != #[trigger] x.jval() by {
        if JsonSpec::Obj(e) == x.jval() {
            lemma_numericumeequery_tag(x, e);
            match x.slot {
                NumericQuerySlot::ExchangeRates(q) => {
                    assert(e[1].1 == q.jval());
                },
                _ => {},
            }
        }
    }
}

/// A two-entry numeric wire shape under this code decodes only through
/// its own payload slot.
proof fn lemma_numericumeequery_reject_registered_tokens(e: Seq<(Seq<char>, JsonSpec)>)
    requires
        e.len() == 2,
        e[0].0 == "assigned_query"@,
        e[0].1 == JsonSpec::Int(3),
        e[1].0 != "registered_tokens"@ || (forall|y: crate::query_leverage::RegisteredTokensParams| e[1].1 != #[trigger] y.jval()),
    ensures
        forall|x: NumericUmeeQuery| JsonSpec::Obj(e) != #[trigger] x.jval(),
{
    lemma_legacy_names();
    assert forall|x: NumericUmeeQuery| JsonSpec::Obj(e) != #[trigger] x.jval() by {
        if JsonSpec::Obj(e) == x.jval() {
            lemma_numericumeequery_tag(x, e);
            match x.slot {
                NumericQuerySlot::RegisteredTokens(q) => {
                    assert(e[1].1 == q.jval());
                },
                _ => {},
            }
        }
    }
}

/// A two-entry numeric wire shape under this code decodes only through
/// its own payload slot.
proof fn lemma_numericumeequery_reject_leverage_parameters(e: Seq<(Seq<char>, JsonSpec)>)
    requires
        e.len() == 2,
        e[0].0 == "assigned_query"@,
        e[0].1 == JsonSpec::Int(4),
        e[1].0 != "leverage_parameters"@ || (forall|y: crate::query_leverage::LeverageParametersParams| e[1].1 != #[trigger] y.jval()),
    ensures
        forall|x: NumericUmeeQuery| JsonSpec::Obj(e) != #[trigger] x.jval(),
{
    lemma_legacy_names();
    assert forall|x: NumericUmeeQuery| JsonSpec::Obj(e) != #[trigger] x.jval() by {
        if JsonSpec::Obj(e) == x.jval() {
            lemma_numericumeequery_tag(x, e);
            match x.slot {
                NumericQuerySlot::LeverageParameters(q) => {
                    assert(e[1].1 == q.jval());
                },
                _ => {},
            }
        }
    }
}

/// A two-entry numeric wire shape under this code decodes only through
/// its own payload slot.
proof fn lemma_numericumeequery_reject_borrowed_value(e: Seq<(Seq<char>, JsonSpec)>)
    requires
        e.len() == 2,
        e[0].0 == "assigned_query"@,
        e[0].1 == JsonSpec::Int(5),
        e[1].0 != "borrowed_value"@ || (forall|y: BorrowedValueParams| e[1].1 != #[trigger] y.jval()),
    ensures
        forall|x: NumericUmeeQuery| JsonSpec::Obj(e) != #[trigger] x.jval(),
{
    lemma_legacy_names();
    assert forall|x: NumericUmeeQuery| JsonSpec::Obj(e) != #[trigger] x.jval() by {
        if JsonSpec::Obj(e) == x.jval() {
            lemma_numericumeequery_tag(x, e);
            match x.slot {
                NumericQuerySlot::BorrowedValue(q) => {
                    assert(e[1].1 == q.jval());
                },
                _ => {},
            }
        }
    }
}

/// A two-entry numeric wire shape under this code decodes only through
/// its own payload slot.
proof fn lemma_numericumeequery_reject_supplied(e: Seq<(Seq<char>, JsonSpec)>)
    requires
        e.len() == 2,
        e[0].0 == "assigned_query"@,
        e[0].1 == JsonSpec::Int(6),
        e[1].0 != "supplied"@ || (forall|y: SuppliedParams| e[1].1 != #[trigger] y.jval()),
    ensures
        forall|x: NumericUmeeQuery| JsonSpec::Obj(e) != #[trigger] x.jval(),
{
    lemma_legacy_names();
    assert forall|x: NumericUmeeQuery| JsonSpec::Obj(e) != #[trigger] x.jval() by {
        if JsonSpec::Obj(e) == x.jval() {
            lemma_numericumeequery_tag(x, e);
            match x.slot {
                NumericQuerySlot::Supplied(q) => {
                    assert(e[1].1 == q.jval());
                },
                _ => {},
            }
        }
    }
}

/// A two-entry numeric wire shape under this code decodes only through
/// its own payload slot.
proof fn lemma_numericumeequery_reject_supplied_value(e: Seq<(Seq<char>, JsonSpec)>)
    requires
        e.len() == 2,
        e[0].0 == "assigned_query"@,
        e[0].1 == JsonSpec::Int(7),
        e[1].0 != "supplied_value"@ || (forall|y: SuppliedValueParams| e[1].1 != #[trigger] y.jval()),
    ensures
        forall|x: NumericUmeeQuery| JsonSpec::Obj(e) != #[trigger] x.jval(),
{
    lemma_legacy_names();
    assert forall|x: NumericUmeeQuery| JsonSpec::Obj(e) != #[trigger] x.jval() by {
        if JsonSpec::Obj(e) == x.jval() {
            lemma_numericumeequery_tag(x, e);
            match x.slot {
                NumericQuerySlot::SuppliedValue(q) => {
                    assert(e[1].1 == q.jval());
                },
                _ => {},
            }
        }
    }
}

/// A two-entry numeric wire shape under this code decodes only through
/// its own payload slot.
proof fn lemma_numericumeequery_reject_available_borrow(e: Seq<(Seq<char>, JsonSpec)>)
    requires
        e.len() == 2,
        e[0].0 == "assigned_query"@,
        e[0].1 == JsonSpec::Int(8),
        e[1].0 != "available_borrow"@ || (forall|y: AvailableBorrowParams| e[1].1 != #[trigger] y.jval()),
    ensures
        forall|x: NumericUmeeQuery| JsonSpec::Obj(e) != #[trigger] x.jval(),
{
    lemma_legacy_names();
    assert forall|x: NumericUmeeQuery| JsonSpec::Obj(e) != #[trigger] x.jval() by {
        if JsonSpec::Obj(e) == x.jval() {
            lemma_numericumeequery_tag(x, e);
            match x.slot {
                NumericQuerySlot::AvailableBorrow(q) => {
                    assert(e[1].1 == q.jval());
                },
                _ => {},
            }
        }
    }
}

/// A two-entry numeric wire shape under this code decodes only through
/// its own payload slot.
proof fn lemma_numericumeequery_reject_borrow_apy(e: Seq<(Seq<char>, JsonSpec)>)
    requires
        e.len() == 2,
        e[0].0 == "assigned_query"@,
        e[0].1 == JsonSpec::Int(9),
        e[1].0 != "borrow_apy"@ || (forall|y: BorrowAPYParams| e[1].1 != #[trigger] y.jval()),
    ensures
        forall|x: NumericUmeeQuery| JsonSpec::Obj(e) != #[trigger] x.jval(),
{
    lemma_legacy_names();
    assert forall|x: NumericUmeeQuery| JsonSpec::Obj(e) != #[trigger] x.jval() by {
        if JsonSpec::Obj(e) == x.jval() {
            lemma_numericumeequery_tag(x, e);
            match x.slot {
                NumericQuerySlot::BorrowApy(q) => {
                    assert(e[1].1 == q.jval());
                },
                _ => {},
            }
        }
    }
}

/// A two-entry numeric wire shape under this code decodes only through
/// its own payload slot.
proof fn lemma_numericumeequery_reject_supply_apy(e: Seq<(Seq<char>, JsonSpec)>)
    requires
        e.len() == 2,
        e[0].0 == "assigned_query"@,
        e[0].1 == JsonSpec::Int(10),
        e[1].0 != "supply_apy"@ || (forall|y: SupplyAPYParams| e[1].1 != #[trigger] y.jval()),
    ensures
        forall|x: NumericUmeeQuery| JsonSpec::Obj(e) != #[trigger] x.jval(),
{
    lemma_legacy_names();
    assert forall|x: NumericUmeeQuery| JsonSpec::Obj(e) != #[trigger] x.jval() by {
        if JsonSpec::Obj(e) == x.jval() {
            lemma_numericumeequery_tag(x, e);
            match x.slot {
                NumericQuerySlot::SupplyApy(q) => {
                    assert(e[1].1 == q.jval());
                },
                _ => {},
            }
        }
    }
}

/// A two-entry numeric wire shape under this code decodes only through
/// its own payload slot.
proof fn lemma_numericumeequery_reject_market_size(e: Seq<(Seq<char>, JsonSpec)>)
    requires
        e.len() == 2,
        e[0].0 == "assigned_query"@,
        e[0].1 == JsonSpec::Int(11),
        e[1].0 != "market_size"@ || (forall|y: MarketSizeParams| e[1].1 != #[trigger] y.jval()),
    ensures
        forall|x: NumericUmeeQuery| JsonSpec::Obj(e) != #[trigger] x.jval(),
{
    lemma_legacy_names();
    assert forall|x: NumericUmeeQuery| JsonSpec::Obj(e) != #[trigger] x.jval() by {
        if JsonSpec::Obj(e) == x.jval() {
            lemma_numericumeequery_tag(x, e);
            match x.slot {
                NumericQuerySlot::MarketSize(q) => {
                    assert(e[1].1 == q.jval());
                },
                _ => {},
            }
        }
    }
}

/// A two-entry numeric wire shape under this code decodes only through
/// its own payload slot.
proof fn lemma_numericumeequery_reject_token_market_size(e: Seq<(Seq<char>, JsonSpec)>)
    requires
        e.len() == 2,
        e[0].0 == "assigned_query"@,
        e[0].1 == JsonSpec::Int(12),
        e[1].0 != "token_market_size"@ || (forall|y: TokenMarketSizeParams| e[1].1 != #[trigger] y.jval()),
    ensures
        forall|x: NumericUmeeQuery| JsonSpec::Obj(e) != #[trigger] x.jval(),
{
    lemma_legacy_names();
    assert forall|x: NumericUmeeQuery| JsonSpec::Obj(e) != #[trigger] x.jval() by {
        if JsonSpec::Obj(e) == x.jval() {
            lemma_numericumeequery_tag(x, e);
            match x.slot {
                NumericQuerySlot::TokenMarketSize(q) => {
                    assert(e[1].1 == q.jval());
                },
                _ => {},
            }
        }
    }
}

/// A two-entry numeric wire shape under this code decodes only through
/// its own payload slot.
proof fn lemma_numericumeequery_reject_reserve_amount(e: Seq<(Seq<char>, JsonSpec)>)
    requires
        e.len() == 2,
        e[0].0 == "assigned_query"@,
        e[0].1 == JsonSpec::Int(13),
        e[1].0 != "reserve_amount"@ || (forall|y: ReserveAmountParams| e[1].1 != #[trigger] y.jval()),
    ensures
        forall|x: NumericUmeeQuery| JsonSpec::Obj(e) != #[trigger] x.jval(),
{
    lemma_legacy_names();
    assert forall|x: NumericUmeeQuery| JsonSpec::Obj(e) != #[trigger] x.jval() by {
        if JsonSpec::Obj(e) == x.jval() {
            lemma_numericumeequery_tag(x, e);
            match x.slot {
                NumericQuerySlot::ReserveAmount(q) => {
                    assert(e[1].1 == q.jval());
                },
                _ => {},
            }
        }
    }
}

/// A two-entry numeric wire shape under this code decodes only through
/// its own payload slot.
proof fn lemma_numericumeequery_reject_collateral(e: Seq<(Seq<char>, JsonSpec)>)
    requires
        e.len() == 2,
        e[0].0 == "assigned_query"@,
        e[0].1 == JsonSpec::Int(14),
        e[1].0 != "collateral"@ || (forall|y: CollateralParams| e[1].1 != #[trigger] y.jval()),
    ensures
        forall|x: NumericUmeeQuery| JsonSpec::Obj(e) != #[trigger] x.jval(),
{
    lemma_legacy_names();
    assert forall|x: NumericUmeeQuery| JsonSpec::Obj(e) != #[trigger] x.jval() by {
        if JsonSpec::Obj(e) == x.jval() {
            lemma_numericumeequery_tag(x, e);
            match x.slot {
                NumericQuerySlot::Collateral(q) => {
                    assert(e[1].1 == q.jval());
                },
                _ => {},
            }
        }
    }
}

/// A two-entry numeric wire shape under this code decodes only through
/// its own payload slot.
proof fn lemma_numericumeequery_reject_collateral_value(e: Seq<(Seq<char>, JsonSpec)>)
    requires
        e.len() == 2,
        e[0].0 == "assigned_query"@,
        e[0].1 == JsonSpec::Int(15),
        e[1].0 != "collateral_value"@ || (forall|y: CollateralValueParams| e[1].1 != #[trigger] y.jval()),
    ensures
        forall|x: NumericUmeeQuery| JsonSpec::Obj(e) != #[trigger] x.jval(),
{
    lemma_legacy_names();
    assert forall|x: NumericUmeeQuery| JsonSpec::Obj(e) != #[trigger] x.jval() by {
        if JsonSpec::Obj(e) == x.jval() {
            lemma_numericumeequery_tag(x, e);
            match x.slot {
                NumericQuerySlot::CollateralValue(q) => {
                    assert(e[1].1 == q.jval());
                },
                _ => {},
            }
        }
    }
}

/// A two-entry numeric wire shape under this code decodes only through
/// its own payload slot.
proof fn lemma_numericumeequery_reject_exchange_rate(e: Seq<(Seq<char>, JsonSpec)>)
    requires
        e.len() == 2,
        e[0].0 == "assigned_query"@,
        e[0].1 == JsonSpec::Int(16),
        e[1].0 != "exchange_rate"@ || (forall|y: ExchangeRateParams| e[1].1 != #[trigger] y.jval()),
    ensures
        forall|x: NumericUmeeQuery| JsonSpec::Obj(e) != #[trigger] x.jval(),
{
    lemma_legacy_names();
    assert forall|x: NumericUmeeQuery| JsonSpec::Obj(e) != #[trigger] x.jval() by {
        if JsonSpec::Obj(e) == x.jval() {
            lemma_numericumeequery_tag(x, e);
            match x.slot {
                NumericQuerySlot::ExchangeRate(q) => {
                    assert(e[1].1 == q.jval());
                },
                _ => {},
            }
        }
    }
}

/// A two-entry numeric wire shape under a code outside the catalog, or
/// not shaped as a numeric envelope at all, decodes to nothing.
proof fn lemma_numericumeequery_reject_shape(v: JsonSpec)
    requires
        v matches JsonSpec::Obj(e) ==> e.len() != 2 || e[0].0 != "assigned_query"@ || (
        e[0].1 matches JsonSpec::Int(c) ==> !(1 <= c <= 16)),
    ensures
        forall|x: NumericUmeeQuery| v != #[trigger] x.jval(),
{
    assert forall|x: NumericUmeeQuery| v != #[trigger] x.jval() by {
        if v == x.jval() {
            lemma_numericumeequery_tag(x, v->Obj_0);
        }
    }
}

impl WireRecord for NumericUmeeQuery {
    /// The wire shape: the code under the fixed discriminant key, then the
    /// one populated slot under the code's canonical name.
    closed spec fn jval(self) -> JsonSpec {
        JsonSpec::Obj(
            seq![
                ("assigned_query"@, JsonSpec::Int(self.assigned_code() as int)),
                (spec_query_name(self.assigned_code()), self.payload_jval()),
            ],
        )
    }

    proof fn jval_wf(self) {
        match self.slot {
            NumericQuerySlot::Borrowed(p) => {
                p.jval_wf();
                assert forall|k: int| 0 <= k < self.jval()->Obj_0.len() implies json_wf(
                    #[trigger] self.jval()->Obj_0[k].1,
                ) by {
                    if k == 0 {
                        assert(json_wf(self.jval()->Obj_0[0].1));
                    } else {
                        assert(json_wf(self.jval()->Obj_0[1].1));
                    }
                }
            },
            NumericQuerySlot::ExchangeRates(p) => {
                p.jval_wf();
                assert forall|k: int| 0 <= k < self.jval()->Obj_0.len() implies json_wf(
                    #[trigger] self.jval()->Obj_0[k].1,
                ) by {
                    if k == 0 {
                        assert(json_wf(self.jval()->Obj_0[0].1));
                    } else {
                        assert(json_wf(self.jval()->Obj_0[1].1));
                    }
                }
            },
            NumericQuerySlot::RegisteredTokens(p) => {
                p.jval_wf();
                assert forall|k: int| 0 <= k < self.jval()->Obj_0.len() implies json_wf(
                    #[trigger] self.jval()->Obj_0[k].1,
                ) by {
                    if k == 0 {
                        assert(json_wf(self.jval()->Obj_0[0].1));
                    } else {
                        assert(json_wf(self.jval()->Obj_0[1].1));
                    }
                }
            },
            NumericQuerySlot::LeverageParameters(p) => {
                p.jval_wf();
                assert forall|k: int| 0 <= k < self.jval()->Obj_0.len() implies json_wf(
                    #[trigger] self.jval()->Obj_0[k].1,
                ) by {
                    if k == 0 {
                        assert(json_wf(self.jval()->Obj_0[0].1));
                    } else {
                        assert(json_wf(self.jval()->Obj_0[1].1));
                    }
                }
            },
            NumericQuerySlot::BorrowedValue(p) => {
                p.jval_wf();
                assert forall|k: int| 0 <= k < self.jval()->Obj_0.len() implies json_wf(
                    #[trigger] self.jval()->Obj_0[k].1,
                ) by {
                    if k == 0 {
                        assert(json_wf(self.jval()->Obj_0[0].1));
                    } else {
                        assert(json_wf(self.jval()->Obj_0[1].1));
                    }
                }
            },
            NumericQuerySlot::Supplied(p) => {
                p.jval_wf();
                assert forall|k: int| 0 <= k < self.jval()->Obj_0.len() implies json_wf(
                    #[trigger] self.jval()->Obj_0[k].1,
                ) by {
                    if k == 0 {
                        assert(json_wf(self.jval()->Obj_0[0].1));
                    } else {
                        assert(json_wf(self.jval()->Obj_0[1].1));
                    }
                }
            },
            NumericQuerySlot::SuppliedValue(p) => {
                p.jval_wf();
                assert forall|k: int| 0 <= k < self.jval()->Obj_0.len() implies json_wf(
                    #[trigger] self.jval()->Obj_0[k].1,
                ) by {
                    if k == 0 {
                        assert(json_wf(self.jval()->Obj_0[0].1));
                    } else {
                        assert(json_wf(self.jval()->Obj_0[1].1));
                    }
                }
            },
            NumericQuerySlot::AvailableBorrow(p) => {
                p.jval_wf();
                assert forall|k: int| 0 <= k < self.jval()->Obj_0.len() implies json_wf(
                    #[trigger] self.jval()->Obj_0[k].1,
                ) by {
                    if k == 0 {
                        assert(json_wf(self.jval()->Obj_0[0].1));
                    } else {
                        assert(json_wf(self.jval()->Obj_0[1].1));
                    }
                }
            },
            NumericQuerySlot::BorrowApy(p) => {
                p.jval_wf();
                assert forall|k: int| 0 <= k < self.jval()->Obj_0.len() implies json_wf(
                    #[trigger] self.jval()->Obj_0[k].1,
                ) by {
                    if k == 0 {
                        assert(json_wf(self.jval()->Obj_0[0].1));
                    } else {
                        assert(json_wf(self.jval()->Obj_0[1].1));
                    }
                }
            },
            NumericQuerySlot::SupplyApy(p) => {
                p.jval_wf();
                assert forall|k: int| 0 <= k < self.jval()->Obj_0.len() implies json_wf(
                    #[trigger] self.jval()->Obj_0[k].1,
                ) by {
                    if k == 0 {
                        assert(json_wf(self.jval()->Obj_0[0].1));
                    } else {
                        assert(json_wf(self.jval()->Obj_0[1].1));
                    }
                }
            },
            NumericQuerySlot::MarketSize(p) => {
                p.jval_wf();
                assert forall|k: int| 0 <= k < self.jval()->Obj_0.len() implies json_wf(
                    #[trigger] self.jval()->Obj_0[k].1,
                ) by {
                    if k == 0 {
                        assert(json_wf(self.jval()->Obj_0[0].1));
                    } else {
                        assert(json_wf(self.jval()->Obj_0[1].1));
                    }
                }
            },
            NumericQuerySlot::TokenMarketSize(p) => {
                p.jval_wf();
                assert forall|k: int| 0 <= k < self.jval()->Obj_0.len() implies json_wf(
                    #[trigger] self.jval()->Obj_0[k].1,
                ) by {
                    if k == 0 {
                        assert(json_wf(self.jval()->Obj_0[0].1));
                    } else {
                        assert(json_wf(self.jval()->Obj_0[1].1));
                    }
                }
            },
            NumericQuerySlot::ReserveAmount(p) => {
                p.jval_wf();
                assert forall|k: int| 0 <= k < self.jval()->Obj_0.len() implies json_wf(
                    #[trigger] self.jval()->Obj_0[k].1,
                ) by {
                    if k == 0 {
                        assert(json_wf(self.jval()->Obj_0[0].1));
                    } else {
                        assert(json_wf(self.jval()->Obj_0[1].1));
                    }
                }
            },
            NumericQuerySlot::Collateral(p) => {
                p.jval_wf();
                assert forall|k: int| 0 <= k < self.jval()->Obj_0.len() implies json_wf(
                    #[trigger] self.jval()->Obj_0[k].1,
                ) by {
                    if k == 0 {
                        assert(json_wf(self.jval()->Obj_0[0].1));
                    } else {
                        assert(json_wf(self.jval()->Obj_0[1].1));
                    }
                }
            },
            NumericQuerySlot::CollateralValue(p) => {
                p.jval_wf();
                assert forall|k: int| 0 <= k < self.jval()->Obj_0.len() implies json_wf(
                    #[trigger] self.jval()->Obj_0[k].1,
                ) by {
                    if k == 0 {
                        assert(json_wf(self.jval()->Obj_0[0].1));
                    } else {
                        assert(json_wf(self.jval()->Obj_0[1].1));
                    }
                }
            },
            NumericQuerySlot::ExchangeRate(p) => {
                p.jval_wf();
                assert forall|k: int| 0 <= k < self.jval()->Obj_0.len() implies json_wf(
                    #[trigger] self.jval()->Obj_0[k].1,
                ) by {
                    if k == 0 {
                        assert(json_wf(self.jval()->Obj_0[0].1));
                    } else {
                        assert(json_wf(self.jval()->Obj_0[1].1));
                    }
                }
            },
        }
    }

    fn build_jval(&self) -> (r: JsonVal) {
        let name = self.assigned_str();
        let code = self.assigned_code_exec();
        let payload = match &self.slot {
            NumericQuerySlot::Borrowed(p) => p.build_jval(),
            NumericQuerySlot::ExchangeRates(p) => p.build_jval(),
            NumericQuerySlot::RegisteredTokens(p) => p.build_jval(),
            NumericQuerySlot::LeverageParameters(p) => p.build_jval(),
            NumericQuerySlot::BorrowedValue(p) => p.build_jval(),
            NumericQuerySlot::Supplied(p) => p.build_jval(),
            NumericQuerySlot::SuppliedValue(p) => p.build_jval(),
            NumericQuerySlot::AvailableBorrow(p) => p.build_jval(),
            NumericQuerySlot::BorrowApy(p) => p.build_jval(),
            NumericQuerySlot::SupplyApy(p) => p.build_jval(),
            NumericQuerySlot::MarketSize(p) => p.build_jval(),
            NumericQuerySlot::TokenMarketSize(p) => p.build_jval(),
            NumericQuerySlot::ReserveAmount(p) => p.build_jval(),
            NumericQuerySlot::Collateral(p) => p.build_jval(),
            NumericQuerySlot::CollateralValue(p) => p.build_jval(),
            NumericQuerySlot::ExchangeRate(p) => p.build_jval(),
        };
        let mut entries: Vec<JsonEntry> = Vec::new();
        entries.push(JsonEntry { key: String::from_str("assigned_query"), val: JsonVal::UInt(code as u64) });
        entries.push(JsonEntry { key: name, val: payload });
        let ghost ges = entries@;
        let r = JsonVal::Obj(entries);
        proof {
            let dvs = r.dv()->Obj_0;
            assert(dvs.len() == 2);
            assert(dvs[0] == (ges[0].key@, ges[0].val.dv()));
            assert(dvs[1] == (ges[1].key@, ges[1].val.dv()));
            assert(r.dv()->Obj_0 =~~= self.jval()->Obj_0);
            assert(r.dv() =~~= self.jval());
            assert(ges[0].val.wf() && ges[1].val.wf());
        }
        r
    }

    #[verifier::rlimit(50)]
    fn from_jval(v: &JsonVal) -> (r: Option<NumericUmeeQuery>) {
        match v {
            JsonVal::Obj(entries) => {
                let head = entries.len() == 2 && str_eq(entries[0].key.as_str(), "assigned_query");
                proof {
                    let dvs = v.dv()->Obj_0;
                    assert(dvs.len() == entries@.len());
                    if entries@.len() == 2 {
                        assert(dvs[0] == (entries@[0].key@, entries@[0].val.dv()));
                        assert(dvs[1] == (entries@[1].key@, entries@[1].val.dv()));
                        assert(dvs =~~= seq![
                            (entries@[0].key@, entries@[0].val.dv()),
                            (entries@[1].key@, entries@[1].val.dv()),
                        ]);
                        assert(v.dv() =~~= JsonSpec::Obj(seq![
                            (entries@[0].key@, entries@[0].val.dv()),
                            (entries@[1].key@, entries@[1].val.dv()),
                        ]));
                    }
                }
                if head {
                    match &entries[0].val {
                        JsonVal::UInt(code) => {
                            if *code == 1 {
                                if str_eq(entries[1].key.as_str(), "borrowed") {
                                    let p: Option<BorrowedParams> = WireRecord::from_jval(&entries[1].val);
                                    match p {
                                        Some(p) => {
                                            let x = NumericUmeeQuery { slot: NumericQuerySlot::Borrowed(p) };
                                            proof {
                                                assert(x.jval()->Obj_0 =~~= v.dv()->Obj_0);
                                                assert(x.jval() =~~= v.dv());
                                            }
                                            Some(x)
                                        },
                                        None => {
                                            proof {
                                                lemma_numericumeequery_reject_borrowed(v.dv()->Obj_0);
                                            }
                                            None
                                        },
                                    }
                                } else {
                                    proof {
                                        lemma_numericumeequery_reject_borrowed(v.dv()->Obj_0);
                                    }
                                    None
                                }
                            } else if *code == 2 {
                                if str_eq(entries[1].key.as_str(), "exchange_rates") {
                                    let p: Option<crate::query_oracle::ExchangeRatesParams> = WireRecord::from_jval(&entries[1].val);
                                    match p {
                                        Some(p) => {
                                            let x = NumericUmeeQuery { slot: NumericQuerySlot::ExchangeRates(p) };
                                            proof {
                                                assert(x.jval()->Obj_0 =~~= v.dv()->Obj_0);
                                                assert(x.jval() =~~= v.dv());
                                            }
                                            Some(x)
                                        },
                                        None => {
                                            proof {
                                                lemma_numericumeequery_reject_exchange_rates(v.dv()->Obj_0);
                                            }
                                            None
                                        },
                                    }
                                } else {
                                    proof {
                                        lemma_numericumeequery_reject_exchange_rates(v.dv()->Obj_0);
                                    }
                                    None
                                }
                            } else if *code == 3 {
                                if str_eq(entries[1].key.as_str(), "registered_tokens") {
                                    let p: Option<crate::query_leverage::RegisteredTokensParams> = WireRecord::from_jval(&entries[1].val);
                                    match p {
                                        Some(p) => {
                                            let x = NumericUmeeQuery { slot: NumericQuerySlot::RegisteredTokens(p) };
                                            proof {
                                                assert(x.jval()->Obj_0 =~~= v.dv()->Obj_0);
                                                assert(x.jval() =~~= v.dv());
                                            }
                                            Some(x)
                                        },
                                        None => {
                                            proof {
                                                lemma_numericumeequery_reject_registered_tokens(v.dv()->Obj_0);
                                            }
                                            None
                                        },
                                    }
                                } else {
                                    proof {
                                        lemma_numericumeequery_reject_registered_tokens(v.dv()->Obj_0);
                                    }
                                    None
                                }
                            } else if *code == 4 {
                                if str_eq(entries[1].key.as_str(), "leverage_parameters") {
                                    let p: Option<crate::query_leverage::LeverageParametersParams> = WireRecord::from_jval(&entries[1].val);
                                    match p {
                                        Some(p) => {
                                            let x = NumericUmeeQuery { slot: NumericQuerySlot::LeverageParameters(p) };
                                            proof {
                                                assert(x.jval()->Obj_0 =~~= v.dv()->Obj_0);
                                                assert(x.jval() =~~= v.dv());
                                            }
                                            Some(x)
                                        },
                                        None => {
                                            proof {
                                                lemma_numericumeequery_reject_leverage_parameters(v.dv()->Obj_0);
                                            }
                                            None
                                        },
                                    }
                                } else {
                                    proof {
                                        lemma_numericumeequery_reject_leverage_parameters(v.dv()->Obj_0);
                                    }
                                    None
                                }
                            } else if *code == 5 {
                                if str_eq(entries[1].key.as_str(), "borrowed_value") {
                                    let p: Option<BorrowedValueParams> = WireRecord::from_jval(&entries[1].val);
                                    match p {
                                        Some(p) => {
                                            let x = NumericUmeeQuery { slot: NumericQuerySlot::BorrowedValue(p) };
                                            proof {
                                                assert(x.jval()->Obj_0 =~~= v.dv()->Obj_0);
                                                assert(x.jval() =~~= v.dv());
                                            }
                                            Some(x)
                                        },
                                        None => {
                                            proof {
                                                lemma_numericumeequery_reject_borrowed_value(v.dv()->Obj_0);
                                            }
                                            None
                                        },
                                    }
                                } else {
                                    proof {
                                        lemma_numericumeequery_reject_borrowed_value(v.dv()->Obj_0);
                                    }
                                    None
                                }
                            } else if *code == 6 {
                                if str_eq(entries[1].key.as_str(), "supplied") {
                                    let p: Option<SuppliedParams> = WireRecord::from_jval(&entries[1].val);
                                    match p {
                                        Some(p) => {
                                            let x = NumericUmeeQuery { slot: NumericQuerySlot::Supplied(p) };
                                            proof {
                                                assert(x.jval()->Obj_0 =~~= v.dv()->Obj_0);
                                                assert(x.jval() =~~= v.dv());
                                            }
                                            Some(x)
                                        },
                                        None => {
                                            proof {
                                                lemma_numericumeequery_reject_supplied(v.dv()->Obj_0);
                                            }
                                            None
                                        },
                                    }
                                } else {
                                    proof {
                                        lemma_numericumeequery_reject_supplied(v.dv()->Obj_0);
                                    }
                                    None
                                }
                            } else if *code == 7 {
                                if str_eq(entries[1].key.as_str(), "supplied_value") {
                                    let p: Option<SuppliedValueParams> = WireRecord::from_jval(&entries[1].val);
                                    match p {
                                        Some(p) => {
                                            let x = NumericUmeeQuery { slot: NumericQuerySlot::SuppliedValue(p) };
                                            proof {
                                                assert(x.jval()->Obj_0 =~~= v.dv()->Obj_0);
                                                assert(x.jval() =~~= v.dv());
                                            }
                                            Some(x)
                                        },
                                        None => {
                                            proof {
                                                lemma_numericumeequery_reject_supplied_value(v.dv()->Obj_0);
                                            }
                                            None
                                        },
                                    }
                                } else {
                                    proof {
                                        lemma_numericumeequery_reject_supplied_value(v.dv()->Obj_0);
                                    }
                                    None
                                }
                            } else if *code == 8 {
                                if str_eq(entries[1].key.as_str(), "available_borrow") {
                                    let p: Option<AvailableBorrowParams> = WireRecord::from_jval(&entries[1].val);
                                    match p {
                                        Some(p) => {
                                            let x = NumericUmeeQuery { slot: NumericQuerySlot::AvailableBorrow(p) };
                                            proof {
                                                assert(x.jval()->Obj_0 =~~= v.dv()->Obj_0);
                                                assert(x.jval() =~~= v.dv());
                                            }
                                            Some(x)
                                        },
                                        None => {
                                            proof {
                                                lemma_numericumeequery_reject_available_borrow(v.dv()->Obj_0);
                                            }
                                            None
                                        },
                                    }
                                } else {
                                    proof {
                                        lemma_numericumeequery_reject_available_borrow(v.dv()->Obj_0);
                                    }
                                    None
                                }
                            } else if *code == 9 {
                                if str_eq(entries[1].key.as_str(), "borrow_apy") {
                                    let p: Option<BorrowAPYParams> = WireRecord::from_jval(&entries[1].val);
                                    match p {
                                        Some(p) => {
                                            let x = NumericUmeeQuery { slot: NumericQuerySlot::BorrowApy(p) };
                                            proof {
                                                assert(x.jval()->Obj_0 =~~= v.dv()->Obj_0);
                                                assert(x.jval() =~~= v.dv());
                                            }
                                            Some(x)
                                        },
                                        None => {
                                            proof {
                                                lemma_numericumeequery_reject_borrow_apy(v.dv()->Obj_0);
                                            }
                                            None
                                        },
                                    }
                                } else {
                                    proof {
                                        lemma_numericumeequery_reject_borrow_apy(v.dv()->Obj_0);
                                    }
                                    None
                                }
                            } else if *code == 10 {
                                if str_eq(entries[1].key.as_str(), "supply_apy") {
                                    let p: Option<SupplyAPYParams> = WireRecord::from_jval(&entries[1].val);
                                    match p {
                                        Some(p) => {
                                            let x = NumericUmeeQuery { slot: NumericQuerySlot::SupplyApy(p) };
                                            proof {
                                                assert(x.jval()->Obj_0 =~~= v.dv()->Obj_0);
                                                assert(x.jval() =~~= v.dv());
                                            }
                                            Some(x)
                                        },
                                        None => {
                                            proof {
                                                lemma_numericumeequery_reject_supply_apy(v.dv()->Obj_0);
                                            }
                                            None
                                        },
                                    }
                                } else {
                                    proof {
                                        lemma_numericumeequery_reject_supply_apy(v.dv()->Obj_0);
                                    }
                                    None
                                }
                            } else if *code == 11 {
                                if str_eq(entries[1].key.as_str(), "market_size") {
                                    let p: Option<MarketSizeParams> = WireRecord::from_jval(&entries[1].val);
                                    match p {
                                        Some(p) => {
                                            let x = NumericUmeeQuery { slot: NumericQuerySlot::MarketSize(p) };
                                            proof {
                                                assert(x.jval()->Obj_0 =~~= v.dv()->Obj_0);
                                                assert(x.jval() =~~= v.dv());
                                            }
                                            Some(x)
                                        },
                                        None => {
                                            proof {
                                                lemma_numericumeequery_reject_market_size(v.dv()->Obj_0);
                                            }
                                            None
                                        },
                                    }
                                } else {
                                    proof {
                                        lemma_numericumeequery_reject_market_size(v.dv()->Obj_0);
                                    }
                                    None
                                }
                            } else if *code == 12 {
                                if str_eq(entries[1].key.as_str(), "token_market_size") {
                                    let p: Option<TokenMarketSizeParams> = WireRecord::from_jval(&entries[1].val);
                                    match p {
                                        Some(p) => {
                                            let x = NumericUmeeQuery { slot: NumericQuerySlot::TokenMarketSize(p) };
                                            proof {
                                                assert(x.jval()->Obj_0 =~~= v.dv()->Obj_0);
                                                assert(x.jval() =~~= v.dv());
                                            }
                                            Some(x)
                                        },
                                        None => {
                                            proof {
                                                lemma_numericumeequery_reject_token_market_size(v.dv()->Obj_0);
                                            }
                                            None
                                        },
                                    }
                                } else {
                                    proof {
                                        lemma_numericumeequery_reject_token_market_size(v.dv()->Obj_0);
                                    }
                                    None
                                }
                            } else if *code == 13 {
                                if str_eq(entries[1].key.as_str(), "reserve_amount") {
                                    let p: Option<ReserveAmountParams> = WireRecord::from_jval(&entries[1].val);
                                    match p {
                                        Some(p) => {
                                            let x = NumericUmeeQuery { slot: NumericQuerySlot::ReserveAmount(p) };
                                            proof {
                                                assert(x.jval()->Obj_0 =~~= v.dv()->Obj_0);
                                                assert(x.jval() =~~= v.dv());
                                            }
                                            Some(x)
                                        },
                                        None => {
                                            proof {
                                                lemma_numericumeequery_reject_reserve_amount(v.dv()->Obj_0);
                                            }
                                            None
                                        },
                                    }
                                } else {
                                    proof {
                                        lemma_numericumeequery_reject_reserve_amount(v.dv()->Obj_0);
                                    }
                                    None
                                }
                            } else if *code == 14 {
                                if str_eq(entries[1].key.as_str(), "collateral") {
                                    let p: Option<CollateralParams> = WireRecord::from_jval(&entries[1].val);
                                    match p {
                                        Some(p) => {
                                            let x = NumericUmeeQuery { slot: NumericQuerySlot::Collateral(p) };
                                            proof {
                                                assert(x.jval()->Obj_0 =~~= v.dv()->Obj_0);
                                                assert(x.jval() =~~= v.dv());
                                            }
                                            Some(x)
                                        },
                                        None => {
                                            proof {
                                                lemma_numericumeequery_reject_collateral(v.dv()->Obj_0);
                                            }
                                            None
                                        },
                                    }
                                } else {
                                    proof {
                                        lemma_numericumeequery_reject_collateral(v.dv()->Obj_0);
                                    }
                                    None
                                }
                            } else if *code == 15 {
                                if str_eq(entries[1].key.as_str(), "collateral_value") {
                                    let p: Option<CollateralValueParams> = WireRecord::from_jval(&entries[1].val);
                                    match p {
                                        Some(p) => {
                                            let x = NumericUmeeQuery { slot: NumericQuerySlot::CollateralValue(p) };
                                            proof {
                                                assert(x.jval()->Obj_0 =~~= v.dv()->Obj_0);
                                                assert(x.jval() =~~= v.dv());
                                            }
                                            Some(x)
                                        },
                                        None => {
                                            proof {
                                                lemma_numericumeequery_reject_collateral_value(v.dv()->Obj_0);
                                            }
                                            None
                                        },
                                    }
                                } else {
                                    proof {
                                        lemma_numericumeequery_reject_collateral_value(v.dv()->Obj_0);
                                    }
                                    None
                                }
                            } else if *code == 16 {
                                if str_eq(entries[1].key.as_str(), "exchange_rate") {
                                    let p: Option<ExchangeRateParams> = WireRecord::from_jval(&entries[1].val);
                                    match p {
                                        Some(p) => {
                                            let x = NumericUmeeQuery { slot: NumericQuerySlot::ExchangeRate(p) };
                                            proof {
                                                assert(x.jval()->Obj_0 =~~= v.dv()->Obj_0);
                                                assert(x.jval() =~~= v.dv());
                                            }
                                            Some(x)
                                        },
                                        None => {
                                            proof {
                                                lemma_numericumeequery_reject_exchange_rate(v.dv()->Obj_0);
                                            }
                                            None
                                        },
                                    }
                                } else {
                                    proof {
                                        lemma_numericumeequery_reject_exchange_rate(v.dv()->Obj_0);
                                    }
                                    None
                                }
                            } else {
                                proof {
                                    lemma_numericumeequery_reject_shape(v.dv());
                                }
                                None
                            }
                        },
                        _ => {
                            proof {
                                lemma_numericumeequery_reject_shape(v.dv());
                            }
                            None
                        },
                    }
                } else {
                    proof {
                        lemma_numericumeequery_reject_shape(v.dv());
                    }
                    None
                }
            },
            _ => {
                proof {
                    lemma_numericumeequery_reject_shape(v.dv());
                }
                None
            },
        }
    }
}

/// Round trip: parsing the canonical wire text of any numeric message
/// envelope yields exactly that envelope's wire record and consumes the
/// whole text; with the contracts of `encode_wire` and `decode_wire` this
/// pins decoding an encoded envelope down to one with the same record.
pub proof fn lemma_numeric_msg_round_trip(e: NumericUmeeMsg)
    ensures
        crate::wire::p_json(crate::wire::jenc(e.jval()), 0) == Some(
            (e.jval(), crate::wire::jenc(e.jval()).len() as int),
        ),
{
    crate::record::lemma_wire_round_trip(e);
}

/// Round trip for numeric query envelopes, as for numeric messages.
pub proof fn lemma_numeric_query_round_trip(q: NumericUmeeQuery)
    ensures
        crate::wire::p_json(crate::wire::jenc(q.jval()), 0) == Some(
            (q.jval(), crate::wire::jenc(q.jval()).len() as int),
        ),
{
    crate::record::lemma_wire_round_trip(q);
}

/// Every catalog name differs from the unrecognized sentinel.
proof fn lemma_legacy_names()
    ensures
        forall|code: u16| 1 <= code <= 6 ==> #[trigger] spec_msg_name(code) != spec_unrecognized(),
        forall|code: u16|
            (1 <= code <= 16 || 23 <= code <= 30) ==> #[trigger] spec_query_name(code)
                != spec_unrecognized(),
{
    reveal_strlit("unrecognized_msg");
    reveal_strlit("supply");
    reveal_strlit("withdraw");
    reveal_strlit("collateralize");
    reveal_strlit("decollateralize");
    reveal_strlit("borrow");
    reveal_strlit("repay");
    reveal_strlit("borrowed");
    reveal_strlit("exchange_rates");
    reveal_strlit("registered_tokens");
    reveal_strlit("leverage_parameters");
    reveal_strlit("borrowed_value");
    reveal_strlit("supplied");
    reveal_strlit("supplied_value");
    reveal_strlit("available_borrow");
    reveal_strlit("borrow_apy");
    reveal_strlit("supply_apy");
    reveal_strlit("market_size");
    reveal_strlit("token_market_size");
    reveal_strlit("reserve_amount");
    reveal_strlit("collateral");
    reveal_strlit("collateral_value");
    reveal_strlit("exchange_rate");
    reveal_strlit("active_exchange_rates");
    reveal_strlit("feeder_delegation");
    reveal_strlit("miss_counter");
    reveal_strlit("aggregate_prevote");
    reveal_strlit("aggregate_prevotes");
    reveal_strlit("aggregate_vote");
    reveal_strlit("aggregate_votes");
    reveal_strlit("oracle_params");
    assert("unrecognized_msg"@.len() == 16);
    assert("supply"@.len() == 6);
    assert("withdraw"@.len() == 8);
    assert("collateralize"@.len() == 13);
    assert("decollateralize"@.len() == 15);
    assert("borrow"@.len() == 6);
    assert("repay"@.len() == 5);
    assert("borrowed"@.len() == 8);
    assert("exchange_rates"@.len() == 14);
    assert("registered_tokens"@.len() == 17);
    assert("leverage_parameters"@.len() == 19);
    assert("borrowed_value"@.len() == 14);
    assert("supplied"@.len() == 8);
    assert("supplied_value"@.len() == 14);
    assert("available_borrow"@.len() == 16);
    assert("available_borrow"@[0] == 'a');
    assert("borrow_apy"@.len() == 10);
    assert("supply_apy"@.len() == 10);
    assert("market_size"@.len() == 11);
    assert("token_market_size"@.len() == 17);
    assert("token_market_size"@[0] == 't');
    assert("registered_tokens"@[0] == 'r');
    assert("reserve_amount"@.len() == 14);
    assert("collateral"@.len() == 10);
    assert("collateral_value"@.len() == 16);
    assert("collateral_value"@[0] == 'c');
    assert("exchange_rate"@.len() == 13);
    assert("active_exchange_rates"@.len() == 21);
    assert("feeder_delegation"@.len() == 17);
    assert("feeder_delegation"@[0] == 'f');
    assert("miss_counter"@.len() == 12);
    assert("aggregate_prevote"@.len() == 17);
    assert("aggregate_prevote"@[0] == 'a');
    assert("aggregate_prevotes"@.len() == 18);
    assert("aggregate_vote"@.len() == 14);
    assert("aggregate_vote"@[0] == 'a');
    assert("aggregate_votes"@.len() == 15);
    assert("oracle_params"@.len() == 13);
    assert("oracle_params"@[0] == 'o');
    assert("unrecognized_msg"@[0] == 'u');
}

} // verus!
