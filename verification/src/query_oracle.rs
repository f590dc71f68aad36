//! Queries of the oracle module group.
use vstd::prelude::*;

use crate::aggregate_exchange_rate_prevote::AggregateExchangeRatePrevote;
use crate::aggregate_exchange_rate_vote::AggregateExchangeRateVote;
use crate::base::{Addr, Decimal256};
use crate::oracle_parameters::OracleParameters;
use crate::record::WireRecord;
use crate::wire::{json_wf, str_eq, JsonEntry, JsonSpec, JsonVal};

verus! {

broadcast use vstd::string::group_string_axioms;

/// Asks for one denomination's exchange rate.
#[derive(Clone, Debug, PartialEq, Eq)]
pub struct ExchangeRatesParams {
    pub denom: String,
}
impl WireRecord for ExchangeRatesParams {
    open spec fn jval(self) -> JsonSpec {
        JsonSpec::Obj(
            seq![
                ("denom"@, self.denom.jval()),
            ],
        )
    }

    proof fn jval_wf(self) {
        self.denom.jval_wf();
        assert forall|k: int| 0 <= k < self.jval()->Obj_0.len() implies json_wf(
            #[trigger] self.jval()->Obj_0[k].1,
        ) by {
            if k == 0 {
                assert(json_wf(self.jval()->Obj_0[0].1));
            }
        }
    }

    fn build_jval(&self) -> (r: JsonVal) {
        let mut entries: Vec<JsonEntry> = Vec::new();
        entries.push(JsonEntry { key: String::from_str("denom"), val: self.denom.build_jval() });
        let ghost ges = entries@;
        let r = JsonVal::Obj(entries);
        proof {
            let dvs = r.dv()->Obj_0;
            assert(dvs.len() == 1);
            assert(dvs[0] == (ges[0].key@, ges[0].val.dv()));
            assert(r.dv()->Obj_0 =~~= self.jval()->Obj_0);
            assert(r.dv() =~~= self.jval());
            assert(ges[0].val.wf());
        }
        r
    }

    fn from_jval(v: &JsonVal) -> (r: Option<ExchangeRatesParams>) {
        match v {
            JsonVal::Obj(entries) => {
                let shape = entries.len() == 1 && str_eq(entries[0].key.as_str(), "denom");
                proof {
                    let dvs = v.dv()->Obj_0;
                    assert(dvs.len() == entries@.len());
                    if entries@.len() == 1 {
                        assert(dvs[0] == (entries@[0].key@, entries@[0].val.dv()));
                    }
                }
                if shape {
                    let g0: Option<String> = WireRecord::from_jval(&entries[0].val);
                    match (g0) {
                        (Some(h0)) => {
                            let x = ExchangeRatesParams { denom: h0 };
                            proof {
                                assert(x.jval()->Obj_0 =~~= v.dv()->Obj_0);
                                assert(x.jval() =~~= v.dv());
                            }
                            Some(x)
                        },
                        _ => {
                            proof {
                                assert forall|x: ExchangeRatesParams| v.dv() != #[trigger] x.jval() by {
                                    if v.dv() == x.jval() {
                                        assert(v.dv()->Obj_0[0].1 == x.denom.jval());
                                    }
                                }
                            }
                            None
                        },
                    }
                } else {
                    proof {
                        assert forall|x: ExchangeRatesParams| v.dv() != #[trigger] x.jval() by {
                            if v.dv() == x.jval() {
                                assert(v.dv()->Obj_0.len() == 1);
                                assert(v.dv()->Obj_0[0].0 == "denom"@);
                            }
                        }
                    }
                    None
                }
            },
            _ => None,
        }
    }
}
/// A denomination together with a decimal amount.
#[derive(Clone, Debug, PartialEq, Eq)]
pub struct DecCoin {
    pub denom: String,
    pub amount: Decimal256,
}
impl WireRecord for DecCoin {
    open spec fn jval(self) -> JsonSpec {
        JsonSpec::Obj(
            seq![
                ("denom"@, self.denom.jval()),
                ("amount"@, self.amount.jval()),
            ],
        )
    }

    proof fn jval_wf(self) {
        self.denom.jval_wf();
        self.amount.jval_wf();
        assert forall|k: int| 0 <= k < self.jval()->Obj_0.len() implies json_wf(
            #[trigger] self.jval()->Obj_0[k].1,
        ) by {
            if k == 0 {
                assert(json_wf(self.jval()->Obj_0[0].1));
            }
            if k == 1 {
                assert(json_wf(self.jval()->Obj_0[1].1));
            }
        }
    }

    fn build_jval(&self) -> (r: JsonVal) {
        let mut entries: Vec<JsonEntry> = Vec::new();
        entries.push(JsonEntry { key: String::from_str("denom"), val: self.denom.build_jval() });
        entries.push(JsonEntry { key: String::from_str("amount"), val: self.amount.build_jval() });
        let ghost ges = entries@;
        let r = JsonVal::Obj(entries);
        proof {
            let dvs = r.dv()->Obj_0;
            assert(dvs.len() == 2);
            assert(dvs[0] == (ges[0].key@, ges[0].val.dv()));
            assert(dvs[1] == (ges[1].key@, ges[1].val.dv()));
            assert(r.dv()->Obj_0 =~~= self.jval()->Obj_0);
            assert(r.dv() =~~= self.jval());
            assert(ges[0].val.wf());
            assert(ges[1].val.wf());
        }
        r
    }

    fn from_jval(v: &JsonVal) -> (r: Option<DecCoin>) {
        match v {
            JsonVal::Obj(entries) => {
                let shape = entries.len() == 2 && str_eq(entries[0].key.as_str(), "denom") && str_eq(entries[1].key.as_str(), "amount");
                proof {
                    let dvs = v.dv()->Obj_0;
                    assert(dvs.len() == entries@.len());
                    if entries@.len() == 2 {
                        assert(dvs[0] == (entries@[0].key@, entries@[0].val.dv()));
                        assert(dvs[1] == (entries@[1].key@, entries@[1].val.dv()));
                    }
                }
                if shape {
                    let g0: Option<String> = WireRecord::from_jval(&entries[0].val);
                    let g1: Option<Decimal256> = WireRecord::from_jval(&entries[1].val);
                    match (g0, g1) {
                        (Some(h0), Some(h1)) => {
                            let x = DecCoin { denom: h0, amount: h1 };
                            proof {
                                assert(x.jval()->Obj_0 =~~= v.dv()->Obj_0);
                                assert(x.jval() =~~= v.dv());
                            }
                            Some(x)
                        },
                        _ => {
                            proof {
                                assert forall|x: DecCoin| v.dv() != #[trigger] x.jval() by {
                                    if v.dv() == x.jval() {
                                        assert(v.dv()->Obj_0[0].1 == x.denom.jval());
                                        assert(v.dv()->Obj_0[1].1 == x.amount.jval());
                                    }
                                }
                            }
                            None
                        },
                    }
                } else {
                    proof {
                        assert forall|x: DecCoin| v.dv() != #[trigger] x.jval() by {
                            if v.dv() == x.jval() {
                                assert(v.dv()->Obj_0.len() == 2);
                                assert(v.dv()->Obj_0[0].0 == "denom"@);
                                assert(v.dv()->Obj_0[1].0 == "amount"@);
                            }
                        }
                    }
                    None
                }
            },
            _ => None,
        }
    }
}
/// The requested exchange rates.
#[derive(Clone, Debug, PartialEq, Eq)]
pub struct ExchangeRatesResponse {
    pub exchange_rates: Vec<DecCoin>,
}
impl WireRecord for ExchangeRatesResponse {
    open spec fn jval(self) -> JsonSpec {
        JsonSpec::Obj(
            seq![
                ("exchange_rates"@, self.exchange_rates.jval()),
            ],
        )
    }

    proof fn jval_wf(self) {
        self.exchange_rates.jval_wf();
        assert forall|k: int| 0 <= k < self.jval()->Obj_0.len() implies json_wf(
            #[trigger] self.jval()->Obj_0[k].1,
        ) by {
            if k == 0 {
                assert(json_wf(self.jval()->Obj_0[0].1));
            }
        }
    }

    fn build_jval(&self) -> (r: JsonVal) {
        let mut entries: Vec<JsonEntry> = Vec::new();
        entries.push(JsonEntry { key: String::from_str("exchange_rates"), val: self.exchange_rates.build_jval() });
        let ghost ges = entries@;
        let r = JsonVal::Obj(entries);
        proof {
            let dvs = r.dv()->Obj_0;
            assert(dvs.len() == 1);
            assert(dvs[0] == (ges[0].key@, ges[0].val.dv()));
            assert(r.dv()->Obj_0 =~~= self.jval()->Obj_0);
            assert(r.dv() =~~= self.jval());
            assert(ges[0].val.wf());
        }
        r
    }

    fn from_jval(v: &JsonVal) -> (r: Option<ExchangeRatesResponse>) {
        match v {
            JsonVal::Obj(entries) => {
                let shape = entries.len() == 1 && str_eq(entries[0].key.as_str(), "exchange_rates");
                proof {
                    let dvs = v.dv()->Obj_0;
                    assert(dvs.len() == entries@.len());
                    if entries@.len() == 1 {
                        assert(dvs[0] == (entries@[0].key@, entries@[0].val.dv()));
                    }
                }
                if shape {
                    let g0: Option<Vec<DecCoin>> = WireRecord::from_jval(&entries[0].val);
                    match (g0) {
                        (Some(h0)) => {
                            let x = ExchangeRatesResponse { exchange_rates: h0 };
                            proof {
                                assert(x.jval()->Obj_0 =~~= v.dv()->Obj_0);
                                assert(x.jval() =~~= v.dv());
                            }
                            Some(x)
                        },
                        _ => {
                            proof {
                                assert forall|x: ExchangeRatesResponse| v.dv() != #[trigger] x.jval() by {
                                    if v.dv() == x.jval() {
                                        assert(v.dv()->Obj_0[0].1 == x.exchange_rates.jval());
                                    }
                                }
                            }
                            None
                        },
                    }
                } else {
                    proof {
                        assert forall|x: ExchangeRatesResponse| v.dv() != #[trigger] x.jval() by {
                            if v.dv() == x.jval() {
                                assert(v.dv()->Obj_0.len() == 1);
                                assert(v.dv()->Obj_0[0].0 == "exchange_rates"@);
                            }
                        }
                    }
                    None
                }
            },
            _ => None,
        }
    }
}
/// Asks for every denomination with an active rate.
#[derive(Clone, Debug, PartialEq, Eq)]
pub struct ActiveExchangeRatesParams {
}
impl WireRecord for ActiveExchangeRatesParams {
    open spec fn jval(self) -> JsonSpec {
        JsonSpec::Obj(Seq::empty())
    }

    proof fn jval_wf(self) {
    }

    fn build_jval(&self) -> (r: JsonVal) {
        let r = JsonVal::Obj(Vec::new());
        proof {
            assert(r.dv()->Obj_0 =~~= self.jval()->Obj_0);
            assert(r.dv() =~~= self.jval());
        }
        r
    }

    fn from_jval(v: &JsonVal) -> (r: Option<ActiveExchangeRatesParams>) {
        match v {
            JsonVal::Obj(entries) => {
                if entries.len() == 0 {
                    let x = ActiveExchangeRatesParams {  };
                    proof {
                        assert(x.jval()->Obj_0 =~~= v.dv()->Obj_0);
                        assert(x.jval() =~~= v.dv());
                    }
                    Some(x)
                } else {
                    proof {
                        assert forall|x: ActiveExchangeRatesParams| v.dv() != #[trigger] x.jval() by {
                            assert(x.jval()->Obj_0.len() == 0);
                            assert(v.dv()->Obj_0.len() == entries@.len());
                        }
                    }
                    None
                }
            },
            _ => None,
        }
    }
}
/// Every denomination with an active rate.
#[derive(Clone, Debug, PartialEq, Eq)]
pub struct ActiveExchangeRatesResponse {
    pub active_rates: Vec<String>,
}
impl WireRecord for ActiveExchangeRatesResponse {
    open spec fn jval(self) -> JsonSpec {
        JsonSpec::Obj(
            seq![
                ("active_rates"@, self.active_rates.jval()),
            ],
        )
    }

    proof fn jval_wf(self) {
        self.active_rates.jval_wf();
        assert forall|k: int| 0 <= k < self.jval()->Obj_0.len() implies json_wf(
            #[trigger] self.jval()->Obj_0[k].1,
        ) by {
            if k == 0 {
                assert(json_wf(self.jval()->Obj_0[0].1));
            }
        }
    }

    fn build_jval(&self) -> (r: JsonVal) {
        let mut entries: Vec<JsonEntry> = Vec::new();
        entries.push(JsonEntry { key: String::from_str("active_rates"), val: self.active_rates.build_jval() });
        let ghost ges = entries@;
        let r = JsonVal::Obj(entries);
        proof {
            let dvs = r.dv()->Obj_0;
            assert(dvs.len() == 1);
            assert(dvs[0] == (ges[0].key@, ges[0].val.dv()));
            assert(r.dv()->Obj_0 =~~= self.jval()->Obj_0);
            assert(r.dv() =~~= self.jval());
            assert(ges[0].val.wf());
        }
        r
    }

    fn from_jval(v: &JsonVal) -> (r: Option<ActiveExchangeRatesResponse>) {
        match v {
            JsonVal::Obj(entries) => {
                let shape = entries.len() == 1 && str_eq(entries[0].key.as_str(), "active_rates");
                proof {
                    let dvs = v.dv()->Obj_0;
                    assert(dvs.len() == entries@.len());
                    if entries@.len() == 1 {
                        assert(dvs[0] == (entries@[0].key@, entries@[0].val.dv()));
                    }
                }
                if shape {
                    let g0: Option<Vec<String>> = WireRecord::from_jval(&entries[0].val);
                    match (g0) {
                        (Some(h0)) => {
                            let x = ActiveExchangeRatesResponse { active_rates: h0 };
                            proof {
                                assert(x.jval()->Obj_0 =~~= v.dv()->Obj_0);
                                assert(x.jval() =~~= v.dv());
                            }
                            Some(x)
                        },
                        _ => {
                            proof {
                                assert forall|x: ActiveExchangeRatesResponse| v.dv() != #[trigger] x.jval() by {
                                    if v.dv() == x.jval() {
                                        assert(v.dv()->Obj_0[0].1 == x.active_rates.jval());
                                    }
                                }
                            }
                            None
                        },
                    }
                } else {
                    proof {
                        assert forall|x: ActiveExchangeRatesResponse| v.dv() != #[trigger] x.jval() by {
                            if v.dv() == x.jval() {
                                assert(v.dv()->Obj_0.len() == 1);
                                assert(v.dv()->Obj_0[0].0 == "active_rates"@);
                            }
                        }
                    }
                    None
                }
            },
            _ => None,
        }
    }
}
/// Asks for a validator's feeder delegation.
#[derive(Clone, Debug, PartialEq, Eq)]
pub struct FeederDelegationParams {
    pub validator_addr: Addr,
}
impl WireRecord for FeederDelegationParams {
    open spec fn jval(self) -> JsonSpec {
        JsonSpec::Obj(
            seq![
                ("validator_addr"@, self.validator_addr.jval()),
            ],
        )
    }

    proof fn jval_wf(self) {
        self.validator_addr.jval_wf();
        assert forall|k: int| 0 <= k < self.jval()->Obj_0.len() implies json_wf(
            #[trigger] self.jval()->Obj_0[k].1,
        ) by {
            if k == 0 {
                assert(json_wf(self.jval()->Obj_0[0].1));
            }
        }
    }

    fn build_jval(&self) -> (r: JsonVal) {
        let mut entries: Vec<JsonEntry> = Vec::new();
        entries.push(JsonEntry { key: String::from_str("validator_addr"), val: self.validator_addr.build_jval() });
        let ghost ges = entries@;
        let r = JsonVal::Obj(entries);
        proof {
            let dvs = r.dv()->Obj_0;
            assert(dvs.len() == 1);
            assert(dvs[0] == (ges[0].key@, ges[0].val.dv()));
            assert(r.dv()->Obj_0 =~~= self.jval()->Obj_0);
            assert(r.dv() =~~= self.jval());
            assert(ges[0].val.wf());
        }
        r
    }

    fn from_jval(v: &JsonVal) -> (r: Option<FeederDelegationParams>) {
        match v {
            JsonVal::Obj(entries) => {
                let shape = entries.len() == 1 && str_eq(entries[0].key.as_str(), "validator_addr");
                proof {
                    let dvs = v.dv()->Obj_0;
                    assert(dvs.len() == entries@.len());
                    if entries@.len() == 1 {
                        assert(dvs[0] == (entries@[0].key@, entries@[0].val.dv()));
                    }
                }
                if shape {
                    let g0: Option<Addr> = WireRecord::from_jval(&entries[0].val);
                    match (g0) {
                        (Some(h0)) => {
                            let x = FeederDelegationParams { validator_addr: h0 };
                            proof {
                                assert(x.jval()->Obj_0 =~~= v.dv()->Obj_0);
                                assert(x.jval() =~~= v.dv());
                            }
                            Some(x)
                        },
                        _ => {
                            proof {
                                assert forall|x: FeederDelegationParams| v.dv() != #[trigger] x.jval() by {
                                    if v.dv() == x.jval() {
                                        assert(v.dv()->Obj_0[0].1 == x.validator_addr.jval());
                                    }
                                }
                            }
                            None
                        },
                    }
                } else {
                    proof {
                        assert forall|x: FeederDelegationParams| v.dv() != #[trigger] x.jval() by {
                            if v.dv() == x.jval() {
                                assert(v.dv()->Obj_0.len() == 1);
                                assert(v.dv()->Obj_0[0].0 == "validator_addr"@);
                            }
                        }
                    }
                    None
                }
            },
            _ => None,
        }
    }
}
/// A validator's feeder delegation.
#[derive(Clone, Debug, PartialEq, Eq)]
pub struct FeederDelegationResponse {
    pub feeder_addr: String,
}
impl WireRecord for FeederDelegationResponse {
    open spec fn jval(self) -> JsonSpec {
        JsonSpec::Obj(
            seq![
                ("feeder_addr"@, self.feeder_addr.jval()),
            ],
        )
    }

    proof fn jval_wf(self) {
        self.feeder_addr.jval_wf();
        assert forall|k: int| 0 <= k < self.jval()->Obj_0.len() implies json_wf(
            #[trigger] self.jval()->Obj_0[k].1,
        ) by {
            if k == 0 {
                assert(json_wf(self.jval()->Obj_0[0].1));
            }
        }
    }

    fn build_jval(&self) -> (r: JsonVal) {
        let mut entries: Vec<JsonEntry> = Vec::new();
        entries.push(JsonEntry { key: String::from_str("feeder_addr"), val: self.feeder_addr.build_jval() });
        let ghost ges = entries@;
        let r = JsonVal::Obj(entries);
        proof {
            let dvs = r.dv()->Obj_0;
            assert(dvs.len() == 1);
            assert(dvs[0] == (ges[0].key@, ges[0].val.dv()));
            assert(r.dv()->Obj_0 =~~= self.jval()->Obj_0);
            assert(r.dv() =~~= self.jval());
            assert(ges[0].val.wf());
        }
        r
    }

    fn from_jval(v: &JsonVal) -> (r: Option<FeederDelegationResponse>) {
        match v {
            JsonVal::Obj(entries) => {
                let shape = entries.len() == 1 && str_eq(entries[0].key.as_str(), "feeder_addr");
                proof {
                    let dvs = v.dv()->Obj_0;
                    assert(dvs.len() == entries@.len());
                    if entries@.len() == 1 {
                        assert(dvs[0] == (entries@[0].key@, entries@[0].val.dv()));
                    }
                }
                if shape {
                    let g0: Option<String> = WireRecord::from_jval(&entries[0].val);
                    match (g0) {
                        (Some(h0)) => {
                            let x = FeederDelegationResponse { feeder_addr: h0 };
                            proof {
                                assert(x.jval()->Obj_0 =~~= v.dv()->Obj_0);
                                assert(x.jval() =~~= v.dv());
                            }
                            Some(x)
                        },
                        _ => {
                            proof {
                                assert forall|x: FeederDelegationResponse| v.dv() != #[trigger] x.jval() by {
                                    if v.dv() == x.jval() {
                                        assert(v.dv()->Obj_0[0].1 == x.feeder_addr.jval());
                                    }
                                }
                            }
                            None
                        },
                    }
                } else {
                    proof {
                        assert forall|x: FeederDelegationResponse| v.dv() != #[trigger] x.jval() by {
                            if v.dv() == x.jval() {
                                assert(v.dv()->Obj_0.len() == 1);
                                assert(v.dv()->Obj_0[0].0 == "feeder_addr"@);
                            }
                        }
                    }
                    None
                }
            },
            _ => None,
        }
    }
}
/// Asks for a validator's miss counter.
#[derive(Clone, Debug, PartialEq, Eq)]
pub struct MissCounterParams {
    pub validator_addr: Addr,
}
impl WireRecord for MissCounterParams {
    open spec fn jval(self) -> JsonSpec {
        JsonSpec::Obj(
            seq![
                ("validator_addr"@, self.validator_addr.jval()),
            ],
        )
    }

    proof fn jval_wf(self) {
        self.validator_addr.jval_wf();
        assert forall|k: int| 0 <= k < self.jval()->Obj_0.len() implies json_wf(
            #[trigger] self.jval()->Obj_0[k].1,
        ) by {
            if k == 0 {
                assert(json_wf(self.jval()->Obj_0[0].1));
            }
        }
    }

    fn build_jval(&self) -> (r: JsonVal) {
        let mut entries: Vec<JsonEntry> = Vec::new();
        entries.push(JsonEntry { key: String::from_str("validator_addr"), val: self.validator_addr.build_jval() });
        let ghost ges = entries@;
        let r = JsonVal::Obj(entries);
        proof {
            let dvs = r.dv()->Obj_0;
            assert(dvs.len() == 1);
            assert(dvs[0] == (ges[0].key@, ges[0].val.dv()));
            assert(r.dv()->Obj_0 =~~= self.jval()->Obj_0);
            assert(r.dv() =~~= self.jval());
            assert(ges[0].val.wf());
        }
        r
    }

    fn from_jval(v: &JsonVal) -> (r: Option<MissCounterParams>) {
        match v {
            JsonVal::Obj(entries) => {
                let shape = entries.len() == 1 && str_eq(entries[0].key.as_str(), "validator_addr");
                proof {
                    let dvs = v.dv()->Obj_0;
                    assert(dvs.len() == entries@.len());
                    if entries@.len() == 1 {
                        assert(dvs[0] == (entries@[0].key@, entries@[0].val.dv()));
                    }
                }
                if shape {
                    let g0: Option<Addr> = WireRecord::from_jval(&entries[0].val);
                    match (g0) {
                        (Some(h0)) => {
                            let x = MissCounterParams { validator_addr: h0 };
                            proof {
                                assert(x.jval()->Obj_0 =~~= v.dv()->Obj_0);
                                assert(x.jval() =~~= v.dv());
                            }
                            Some(x)
                        },
                        _ => {
                            proof {
                                assert forall|x: MissCounterParams| v.dv() != #[trigger] x.jval() by {
                                    if v.dv() == x.jval() {
                                        assert(v.dv()->Obj_0[0].1 == x.validator_addr.jval());
                                    }
                                }
                            }
                            None
                        },
                    }
                } else {
                    proof {
                        assert forall|x: MissCounterParams| v.dv() != #[trigger] x.jval() by {
                            if v.dv() == x.jval() {
                                assert(v.dv()->Obj_0.len() == 1);
                                assert(v.dv()->Obj_0[0].0 == "validator_addr"@);
                            }
                        }
                    }
                    None
                }
            },
            _ => None,
        }
    }
}
/// A validator's miss counter.
#[derive(Clone, Debug, PartialEq, Eq)]
pub struct MissCounterResponse {
    pub miss_counter: u64,
}
impl WireRecord for MissCounterResponse {
    open spec fn jval(self) -> JsonSpec {
        JsonSpec::Obj(
            seq![
                ("miss_counter"@, self.miss_counter.jval()),
            ],
        )
    }

    proof fn jval_wf(self) {
        self.miss_counter.jval_wf();
        assert forall|k: int| 0 <= k < self.jval()->Obj_0.len() implies json_wf(
            #[trigger] self.jval()->Obj_0[k].1,
        ) by {
            if k == 0 {
                assert(json_wf(self.jval()->Obj_0[0].1));
            }
        }
    }

    fn build_jval(&self) -> (r: JsonVal) {
        let mut entries: Vec<JsonEntry> = Vec::new();
        entries.push(JsonEntry { key: String::from_str("miss_counter"), val: self.miss_counter.build_jval() });
        let ghost ges = entries@;
        let r = JsonVal::Obj(entries);
        proof {
            let dvs = r.dv()->Obj_0;
            assert(dvs.len() == 1);
            assert(dvs[0] == (ges[0].key@, ges[0].val.dv()));
            assert(r.dv()->Obj_0 =~~= self.jval()->Obj_0);
            assert(r.dv() =~~= self.jval());
            assert(ges[0].val.wf());
        }
        r
    }

    fn from_jval(v: &JsonVal) -> (r: Option<MissCounterResponse>) {
        match v {
            JsonVal::Obj(entries) => {
                let shape = entries.len() == 1 && str_eq(entries[0].key.as_str(), "miss_counter");
                proof {
                    let dvs = v.dv()->Obj_0;
                    assert(dvs.len() == entries@.len());
                    if entries@.len() == 1 {
                        assert(dvs[0] == (entries@[0].key@, entries@[0].val.dv()));
                    }
                }
                if shape {
                    let g0: Option<u64> = WireRecord::from_jval(&entries[0].val);
                    match (g0) {
                        (Some(h0)) => {
                            let x = MissCounterResponse { miss_counter: h0 };
                            proof {
                                assert(x.jval()->Obj_0 =~~= v.dv()->Obj_0);
                                assert(x.jval() =~~= v.dv());
                            }
                            Some(x)
                        },
                        _ => {
                            proof {
                                assert forall|x: MissCounterResponse| v.dv() != #[trigger] x.jval() by {
                                    if v.dv() == x.jval() {
                                        assert(v.dv()->Obj_0[0].1 == x.miss_counter.jval());
                                    }
                                }
                            }
                            None
                        },
                    }
                } else {
                    proof {
                        assert forall|x: MissCounterResponse| v.dv() != #[trigger] x.jval() by {
                            if v.dv() == x.jval() {
                                assert(v.dv()->Obj_0.len() == 1);
                                assert(v.dv()->Obj_0[0].0 == "miss_counter"@);
                            }
                        }
                    }
                    None
                }
            },
            _ => None,
        }
    }
}
/// Asks for the oracle's slash window progress.
#[derive(Clone, Debug, PartialEq, Eq)]
pub struct SlashWindowParams {
}
impl WireRecord for SlashWindowParams {
    open spec fn jval(self) -> JsonSpec {
        JsonSpec::Obj(Seq::empty())
    }

    proof fn jval_wf(self) {
    }

    fn build_jval(&self) -> (r: JsonVal) {
        let r = JsonVal::Obj(Vec::new());
        proof {
            assert(r.dv()->Obj_0 =~~= self.jval()->Obj_0);
            assert(r.dv() =~~= self.jval());
        }
        r
    }

    fn from_jval(v: &JsonVal) -> (r: Option<SlashWindowParams>) {
        match v {
            JsonVal::Obj(entries) => {
                if entries.len() == 0 {
                    let x = SlashWindowParams {  };
                    proof {
                        assert(x.jval()->Obj_0 =~~= v.dv()->Obj_0);
                        assert(x.jval() =~~= v.dv());
                    }
                    Some(x)
                } else {
                    proof {
                        assert forall|x: SlashWindowParams| v.dv() != #[trigger] x.jval() by {
                            assert(x.jval()->Obj_0.len() == 0);
                            assert(v.dv()->Obj_0.len() == entries@.len());
                        }
                    }
                    None
                }
            },
            _ => None,
        }
    }
}
/// The oracle's slash window progress.
#[derive(Clone, Debug, PartialEq, Eq)]
pub struct SlashWindowResponse {
    pub window_progress: u64,
}
impl WireRecord for SlashWindowResponse {
    open spec fn jval(self) -> JsonSpec {
        JsonSpec::Obj(
            seq![
                ("window_progress"@, self.window_progress.jval()),
            ],
        )
    }

    proof fn jval_wf(self) {
        self.window_progress.jval_wf();
        assert forall|k: int| 0 <= k < self.jval()->Obj_0.len() implies json_wf(
            #[trigger] self.jval()->Obj_0[k].1,
        ) by {
            if k == 0 {
                assert(json_wf(self.jval()->Obj_0[0].1));
            }
        }
    }

    fn build_jval(&self) -> (r: JsonVal) {
        let mut entries: Vec<JsonEntry> = Vec::new();
        entries.push(JsonEntry { key: String::from_str("window_progress"), val: self.window_progress.build_jval() });
        let ghost ges = entries@;
        let r = JsonVal::Obj(entries);
        proof {
            let dvs = r.dv()->Obj_0;
            assert(dvs.len() == 1);
            assert(dvs[0] == (ges[0].key@, ges[0].val.dv()));
            assert(r.dv()->Obj_0 =~~= self.jval()->Obj_0);
            assert(r.dv() =~~= self.jval());
            assert(ges[0].val.wf());
        }
        r
    }

    fn from_jval(v: &JsonVal) -> (r: Option<SlashWindowResponse>) {
        match v {
            JsonVal::Obj(entries) => {
                let shape = entries.len() == 1 && str_eq(entries[0].key.as_str(), "window_progress");
                proof {
                    let dvs = v.dv()->Obj_0;
                    assert(dvs.len() == entries@.len());
                    if entries@.len() == 1 {
                        assert(dvs[0] == (entries@[0].key@, entries@[0].val.dv()));
                    }
                }
                if shape {
                    let g0: Option<u64> = WireRecord::from_jval(&entries[0].val);
                    match (g0) {
                        (Some(h0)) => {
                            let x = SlashWindowResponse { window_progress: h0 };
                            proof {
                                assert(x.jval()->Obj_0 =~~= v.dv()->Obj_0);
                                assert(x.jval() =~~= v.dv());
                            }
                            Some(x)
                        },
                        _ => {
                            proof {
                                assert forall|x: SlashWindowResponse| v.dv() != #[trigger] x.jval() by {
                                    if v.dv() == x.jval() {
                                        assert(v.dv()->Obj_0[0].1 == x.window_progress.jval());
                                    }
                                }
                            }
                            None
                        },
                    }
                } else {
                    proof {
                        assert forall|x: SlashWindowResponse| v.dv() != #[trigger] x.jval() by {
                            if v.dv() == x.jval() {
                                assert(v.dv()->Obj_0.len() == 1);
                                assert(v.dv()->Obj_0[0].0 == "window_progress"@);
                            }
                        }
                    }
                    None
                }
            },
            _ => None,
        }
    }
}
/// Asks for a validator's standing prevote.
#[derive(Clone, Debug, PartialEq, Eq)]
pub struct AggregatePrevoteParams {
    pub validator_addr: Addr,
}
impl WireRecord for AggregatePrevoteParams {
    open spec fn jval(self) -> JsonSpec {
        JsonSpec::Obj(
            seq![
                ("validator_addr"@, self.validator_addr.jval()),
            ],
        )
    }

    proof fn jval_wf(self) {
        self.validator_addr.jval_wf();
        assert forall|k: int| 0 <= k < self.jval()->Obj_0.len() implies json_wf(
            #[trigger] self.jval()->Obj_0[k].1,
        ) by {
            if k == 0 {
                assert(json_wf(self.jval()->Obj_0[0].1));
            }
        }
    }

    fn build_jval(&self) -> (r: JsonVal) {
        let mut entries: Vec<JsonEntry> = Vec::new();
        entries.push(JsonEntry { key: String::from_str("validator_addr"), val: self.validator_addr.build_jval() });
        let ghost ges = entries@;
        let r = JsonVal::Obj(entries);
        proof {
            let dvs = r.dv()->Obj_0;
            assert(dvs.len() == 1);
            assert(dvs[0] == (ges[0].key@, ges[0].val.dv()));
            assert(r.dv()->Obj_0 =~~= self.jval()->Obj_0);
            assert(r.dv() =~~= self.jval());
            assert(ges[0].val.wf());
        }
        r
    }

    fn from_jval(v: &JsonVal) -> (r: Option<AggregatePrevoteParams>) {
        match v {
            JsonVal::Obj(entries) => {
                let shape = entries.len() == 1 && str_eq(entries[0].key.as_str(), "validator_addr");
                proof {
                    let dvs = v.dv()->Obj_0;
                    assert(dvs.len() == entries@.len());
                    if entries@.len() == 1 {
                        assert(dvs[0] == (entries@[0].key@, entries@[0].val.dv()));
                    }
                }
                if shape {
                    let g0: Option<Addr> = WireRecord::from_jval(&entries[0].val);
                    match (g0) {
                        (Some(h0)) => {
                            let x = AggregatePrevoteParams { validator_addr: h0 };
                            proof {
                                assert(x.jval()->Obj_0 =~~= v.dv()->Obj_0);
                                assert(x.jval() =~~= v.dv());
                            }
                            Some(x)
                        },
                        _ => {
                            proof {
                                assert forall|x: AggregatePrevoteParams| v.dv() != #[trigger] x.jval() by {
                                    if v.dv() == x.jval() {
                                        assert(v.dv()->Obj_0[0].1 == x.validator_addr.jval());
                                    }
                                }
                            }
                            None
                        },
                    }
                } else {
                    proof {
                        assert forall|x: AggregatePrevoteParams| v.dv() != #[trigger] x.jval() by {
                            if v.dv() == x.jval() {
                                assert(v.dv()->Obj_0.len() == 1);
                                assert(v.dv()->Obj_0[0].0 == "validator_addr"@);
                            }
                        }
                    }
                    None
                }
            },
            _ => None,
        }
    }
}
/// A validator's standing prevote.
#[derive(Clone, Debug, PartialEq, Eq)]
pub struct AggregatePrevoteResponse {
    pub aggregate_prevote: AggregateExchangeRatePrevote,
}
impl WireRecord for AggregatePrevoteResponse {
    open spec fn jval(self) -> JsonSpec {
        JsonSpec::Obj(
            seq![
                ("aggregate_prevote"@, self.aggregate_prevote.jval()),
            ],
        )
    }

    proof fn jval_wf(self) {
        self.aggregate_prevote.jval_wf();
        assert forall|k: int| 0 <= k < self.jval()->Obj_0.len() implies json_wf(
            #[trigger] self.jval()->Obj_0[k].1,
        ) by {
            if k == 0 {
                assert(json_wf(self.jval()->Obj_0[0].1));
            }
        }
    }

    fn build_jval(&self) -> (r: JsonVal) {
        let mut entries: Vec<JsonEntry> = Vec::new();
        entries.push(JsonEntry { key: String::from_str("aggregate_prevote"), val: self.aggregate_prevote.build_jval() });
        let ghost ges = entries@;
        let r = JsonVal::Obj(entries);
        proof {
            let dvs = r.dv()->Obj_0;
            assert(dvs.len() == 1);
            assert(dvs[0] == (ges[0].key@, ges[0].val.dv()));
            assert(r.dv()->Obj_0 =~~= self.jval()->Obj_0);
            assert(r.dv() =~~= self.jval());
            assert(ges[0].val.wf());
        }
        r
    }

    fn from_jval(v: &JsonVal) -> (r: Option<AggregatePrevoteResponse>) {
        match v {
            JsonVal::Obj(entries) => {
                let shape = entries.len() == 1 && str_eq(entries[0].key.as_str(), "aggregate_prevote");
                proof {
                    let dvs = v.dv()->Obj_0;
                    assert(dvs.len() == entries@.len());
                    if entries@.len() == 1 {
                        assert(dvs[0] == (entries@[0].key@, entries@[0].val.dv()));
                    }
                }
                if shape {
                    let g0: Option<AggregateExchangeRatePrevote> = WireRecord::from_jval(&entries[0].val);
                    match (g0) {
                        (Some(h0)) => {
                            let x = AggregatePrevoteResponse { aggregate_prevote: h0 };
                            proof {
                                assert(x.jval()->Obj_0 =~~= v.dv()->Obj_0);
                                assert(x.jval() =~~= v.dv());
                            }
                            Some(x)
                        },
                        _ => {
                            proof {
                                assert forall|x: AggregatePrevoteResponse| v.dv() != #[trigger] x.jval() by {
                                    if v.dv() == x.jval() {
                                        assert(v.dv()->Obj_0[0].1 == x.aggregate_prevote.jval());
                                    }
                                }
                            }
                            None
                        },
                    }
                } else {
                    proof {
                        assert forall|x: AggregatePrevoteResponse| v.dv() != #[trigger] x.jval() by {
                            if v.dv() == x.jval() {
                                assert(v.dv()->Obj_0.len() == 1);
                                assert(v.dv()->Obj_0[0].0 == "aggregate_prevote"@);
                            }
                        }
                    }
                    None
                }
            },
            _ => None,
        }
    }
}
/// Asks for every validator's standing prevote.
#[derive(Clone, Debug, PartialEq, Eq)]
pub struct AggregatePrevotesParams {
}
impl WireRecord for AggregatePrevotesParams {
    open spec fn jval(self) -> JsonSpec {
        JsonSpec::Obj(Seq::empty())
    }

    proof fn jval_wf(self) {
    }

    fn build_jval(&self) -> (r: JsonVal) {
        let r = JsonVal::Obj(Vec::new());
        proof {
            assert(r.dv()->Obj_0 =~~= self.jval()->Obj_0);
            assert(r.dv() =~~= self.jval());
        }
        r
    }

    fn from_jval(v: &JsonVal) -> (r: Option<AggregatePrevotesParams>) {
        match v {
            JsonVal::Obj(entries) => {
                if entries.len() == 0 {
                    let x = AggregatePrevotesParams {  };
                    proof {
                        assert(x.jval()->Obj_0 =~~= v.dv()->Obj_0);
                        assert(x.jval() =~~= v.dv());
                    }
                    Some(x)
                } else {
                    proof {
                        assert forall|x: AggregatePrevotesParams| v.dv() != #[trigger] x.jval() by {
                            assert(x.jval()->Obj_0.len() == 0);
                            assert(v.dv()->Obj_0.len() == entries@.len());
                        }
                    }
                    None
                }
            },
            _ => None,
        }
    }
}
/// Every validator's standing prevote.
#[derive(Clone, Debug, PartialEq, Eq)]
pub struct AggregatePrevotesResponse {
    pub aggregate_prevotes: Vec<AggregateExchangeRatePrevote>,
}
impl WireRecord for AggregatePrevotesResponse {
    open spec fn jval(self) -> JsonSpec {
        JsonSpec::Obj(
            seq![
                ("aggregate_prevotes"@, self.aggregate_prevotes.jval()),
            ],
        )
    }

    proof fn jval_wf(self) {
        self.aggregate_prevotes.jval_wf();
        assert forall|k: int| 0 <= k < self.jval()->Obj_0.len() implies json_wf(
            #[trigger] self.jval()->Obj_0[k].1,
        ) by {
            if k == 0 {
                assert(json_wf(self.jval()->Obj_0[0].1));
            }
        }
    }

    fn build_jval(&self) -> (r: JsonVal) {
        let mut entries: Vec<JsonEntry> = Vec::new();
        entries.push(JsonEntry { key: String::from_str("aggregate_prevotes"), val: self.aggregate_prevotes.build_jval() });
        let ghost ges = entries@;
        let r = JsonVal::Obj(entries);
        proof {
            let dvs = r.dv()->Obj_0;
            assert(dvs.len() == 1);
            assert(dvs[0] == (ges[0].key@, ges[0].val.dv()));
            assert(r.dv()->Obj_0 =~~= self.jval()->Obj_0);
            assert(r.dv() =~~= self.jval());
            assert(ges[0].val.wf());
        }
        r
    }

    fn from_jval(v: &JsonVal) -> (r: Option<AggregatePrevotesResponse>) {
        match v {
            JsonVal::Obj(entries) => {
                let shape = entries.len() == 1 && str_eq(entries[0].key.as_str(), "aggregate_prevotes");
                proof {
                    let dvs = v.dv()->Obj_0;
                    assert(dvs.len() == entries@.len());
                    if entries@.len() == 1 {
                        assert(dvs[0] == (entries@[0].key@, entries@[0].val.dv()));
                    }
                }
                if shape {
                    let g0: Option<Vec<AggregateExchangeRatePrevote>> = WireRecord::from_jval(&entries[0].val);
                    match (g0) {
                        (Some(h0)) => {
                            let x = AggregatePrevotesResponse { aggregate_prevotes: h0 };
                            proof {
                                assert(x.jval()->Obj_0 =~~= v.dv()->Obj_0);
                                assert(x.jval() =~~= v.dv());
                            }
                            Some(x)
                        },
                        _ => {
                            proof {
                                assert forall|x: AggregatePrevotesResponse| v.dv() != #[trigger] x.jval() by {
                                    if v.dv() == x.jval() {
                                        assert(v.dv()->Obj_0[0].1 == x.aggregate_prevotes.jval());
                                    }
                                }
                            }
                            None
                        },
                    }
                } else {
                    proof {
                        assert forall|x: AggregatePrevotesResponse| v.dv() != #[trigger] x.jval() by {
                            if v.dv() == x.jval() {
                                assert(v.dv()->Obj_0.len() == 1);
                                assert(v.dv()->Obj_0[0].0 == "aggregate_prevotes"@);
                            }
                        }
                    }
                    None
                }
            },
            _ => None,
        }
    }
}
/// Asks for a validator's standing vote.
#[derive(Clone, Debug, PartialEq, Eq)]
pub struct AggregateVoteParams {
    pub validator_addr: Addr,
}
impl WireRecord for AggregateVoteParams {
    open spec fn jval(self) -> JsonSpec {
        JsonSpec::Obj(
            seq![
                ("validator_addr"@, self.validator_addr.jval()),
            ],
        )
    }

    proof fn jval_wf(self) {
        self.validator_addr.jval_wf();
        assert forall|k: int| 0 <= k < self.jval()->Obj_0.len() implies json_wf(
            #[trigger] self.jval()->Obj_0[k].1,
        ) by {
            if k == 0 {
                assert(json_wf(self.jval()->Obj_0[0].1));
            }
        }
    }

    fn build_jval(&self) -> (r: JsonVal) {
        let mut entries: Vec<JsonEntry> = Vec::new();
        entries.push(JsonEntry { key: String::from_str("validator_addr"), val: self.validator_addr.build_jval() });
        let ghost ges = entries@;
        let r = JsonVal::Obj(entries);
        proof {
            let dvs = r.dv()->Obj_0;
            assert(dvs.len() == 1);
            assert(dvs[0] == (ges[0].key@, ges[0].val.dv()));
            assert(r.dv()->Obj_0 =~~= self.jval()->Obj_0);
            assert(r.dv() =~~= self.jval());
            assert(ges[0].val.wf());
        }
        r
    }

    fn from_jval(v: &JsonVal) -> (r: Option<AggregateVoteParams>) {
        match v {
            JsonVal::Obj(entries) => {
                let shape = entries.len() == 1 && str_eq(entries[0].key.as_str(), "validator_addr");
                proof {
                    let dvs = v.dv()->Obj_0;
                    assert(dvs.len() == entries@.len());
                    if entries@.len() == 1 {
                        assert(dvs[0] == (entries@[0].key@, entries@[0].val.dv()));
                    }
                }
                if shape {
                    let g0: Option<Addr> = WireRecord::from_jval(&entries[0].val);
                    match (g0) {
                        (Some(h0)) => {
                            let x = AggregateVoteParams { validator_addr: h0 };
                            proof {
                                assert(x.jval()->Obj_0 =~~= v.dv()->Obj_0);
                                assert(x.jval() =~~= v.dv());
                            }
                            Some(x)
                        },
                        _ => {
                            proof {
                                assert forall|x: AggregateVoteParams| v.dv() != #[trigger] x.jval() by {
                                    if v.dv() == x.jval() {
                                        assert(v.dv()->Obj_0[0].1 == x.validator_addr.jval());
                                    }
                                }
                            }
                            None
                        },
                    }
                } else {
                    proof {
                        assert forall|x: AggregateVoteParams| v.dv() != #[trigger] x.jval() by {
                            if v.dv() == x.jval() {
                                assert(v.dv()->Obj_0.len() == 1);
                                assert(v.dv()->Obj_0[0].0 == "validator_addr"@);
                            }
                        }
                    }
                    None
                }
            },
            _ => None,
        }
    }
}
/// A validator's standing vote.
#[derive(Clone, Debug, PartialEq, Eq)]
pub struct AggregateVoteResponse {
    pub aggregate_vote: AggregateExchangeRateVote,
}
impl WireRecord for AggregateVoteResponse {
    open spec fn jval(self) -> JsonSpec {
        JsonSpec::Obj(
            seq![
                ("aggregate_vote"@, self.aggregate_vote.jval()),
            ],
        )
    }

    proof fn jval_wf(self) {
        self.aggregate_vote.jval_wf();
        assert forall|k: int| 0 <= k < self.jval()->Obj_0.len() implies json_wf(
            #[trigger] self.jval()->Obj_0[k].1,
        ) by {
            if k == 0 {
                assert(json_wf(self.jval()->Obj_0[0].1));
            }
        }
    }

    fn build_jval(&self) -> (r: JsonVal) {
        let mut entries: Vec<JsonEntry> = Vec::new();
        entries.push(JsonEntry { key: String::from_str("aggregate_vote"), val: self.aggregate_vote.build_jval() });
        let ghost ges = entries@;
        let r = JsonVal::Obj(entries);
        proof {
            let dvs = r.dv()->Obj_0;
            assert(dvs.len() == 1);
            assert(dvs[0] == (ges[0].key@, ges[0].val.dv()));
            assert(r.dv()->Obj_0 =~~= self.jval()->Obj_0);
            assert(r.dv() =~~= self.jval());
            assert(ges[0].val.wf());
        }
        r
    }

    fn from_jval(v: &JsonVal) -> (r: Option<AggregateVoteResponse>) {
        match v {
            JsonVal::Obj(entries) => {
                let shape = entries.len() == 1 && str_eq(entries[0].key.as_str(), "aggregate_vote");
                proof {
                    let dvs = v.dv()->Obj_0;
                    assert(dvs.len() == entries@.len());
                    if entries@.len() == 1 {
                        assert(dvs[0] == (entries@[0].key@, entries@[0].val.dv()));
                    }
                }
                if shape {
                    let g0: Option<AggregateExchangeRateVote> = WireRecord::from_jval(&entries[0].val);
                    match (g0) {
                        (Some(h0)) => {
                            let x = AggregateVoteResponse { aggregate_vote: h0 };
                            proof {
                                assert(x.jval()->Obj_0 =~~= v.dv()->Obj_0);
                                assert(x.jval() =~~= v.dv());
                            }
                            Some(x)
                        },
                        _ => {
                            proof {
                                assert forall|x: AggregateVoteResponse| v.dv() != #[trigger] x.jval() by {
                                    if v.dv() == x.jval() {
                                        assert(v.dv()->Obj_0[0].1 == x.aggregate_vote.jval());
                                    }
                                }
                            }
                            None
                        },
                    }
                } else {
                    proof {
                        assert forall|x: AggregateVoteResponse| v.dv() != #[trigger] x.jval() by {
                            if v.dv() == x.jval() {
                                assert(v.dv()->Obj_0.len() == 1);
                                assert(v.dv()->Obj_0[0].0 == "aggregate_vote"@);
                            }
                        }
                    }
                    None
                }
            },
            _ => None,
        }
    }
}
/// Asks for every validator's standing vote.
#[derive(Clone, Debug, PartialEq, Eq)]
pub struct AggregateVotesParams {
}
impl WireRecord for AggregateVotesParams {
    open spec fn jval(self) -> JsonSpec {
        JsonSpec::Obj(Seq::empty())
    }

    proof fn jval_wf(self) {
    }

    fn build_jval(&self) -> (r: JsonVal) {
        let r = JsonVal::Obj(Vec::new());
        proof {
            assert(r.dv()->Obj_0 =~~= self.jval()->Obj_0);
            assert(r.dv() =~~= self.jval());
        }
        r
    }

    fn from_jval(v: &JsonVal) -> (r: Option<AggregateVotesParams>) {
        match v {
            JsonVal::Obj(entries) => {
                if entries.len() == 0 {
                    let x = AggregateVotesParams {  };
                    proof {
                        assert(x.jval()->Obj_0 =~~= v.dv()->Obj_0);
                        assert(x.jval() =~~= v.dv());
                    }
                    Some(x)
                } else {
                    proof {
                        assert forall|x: AggregateVotesParams| v.dv() != #[trigger] x.jval() by {
                            assert(x.jval()->Obj_0.len() == 0);
                            assert(v.dv()->Obj_0.len() == entries@.len());
                        }
                    }
                    None
                }
            },
            _ => None,
        }
    }
}
/// Every validator's standing vote.
#[derive(Clone, Debug, PartialEq, Eq)]
pub struct AggregateVotesResponse {
    pub aggregate_votes: Vec<AggregateExchangeRateVote>,
}
impl WireRecord for AggregateVotesResponse {
    open spec fn jval(self) -> JsonSpec {
        JsonSpec::Obj(
            seq![
                ("aggregate_votes"@, self.aggregate_votes.jval()),
            ],
        )
    }

    proof fn jval_wf(self) {
        self.aggregate_votes.jval_wf();
        assert forall|k: int| 0 <= k < self.jval()->Obj_0.len() implies json_wf(
            #[trigger] self.jval()->Obj_0[k].1,
        ) by {
            if k == 0 {
                assert(json_wf(self.jval()->Obj_0[0].1));
            }
        }
    }

    fn build_jval(&self) -> (r: JsonVal) {
        let mut entries: Vec<JsonEntry> = Vec::new();
        entries.push(JsonEntry { key: String::from_str("aggregate_votes"), val: self.aggregate_votes.build_jval() });
        let ghost ges = entries@;
        let r = JsonVal::Obj(entries);
        proof {
            let dvs = r.dv()->Obj_0;
            assert(dvs.len() == 1);
            assert(dvs[0] == (ges[0].key@, ges[0].val.dv()));
            assert(r.dv()->Obj_0 =~~= self.jval()->Obj_0);
            assert(r.dv() =~~= self.jval());
            assert(ges[0].val.wf());
        }
        r
    }

    fn from_jval(v: &JsonVal) -> (r: Option<AggregateVotesResponse>) {
        match v {
            JsonVal::Obj(entries) => {
                let shape = entries.len() == 1 && str_eq(entries[0].key.as_str(), "aggregate_votes");
                proof {
                    let dvs = v.dv()->Obj_0;
                    assert(dvs.len() == entries@.len());
                    if entries@.len() == 1 {
                        assert(dvs[0] == (entries@[0].key@, entries@[0].val.dv()));
                    }
                }
                if shape {
                    let g0: Option<Vec<AggregateExchangeRateVote>> = WireRecord::from_jval(&entries[0].val);
                    match (g0) {
                        (Some(h0)) => {
                            let x = AggregateVotesResponse { aggregate_votes: h0 };
                            proof {
                                assert(x.jval()->Obj_0 =~~= v.dv()->Obj_0);
                                assert(x.jval() =~~= v.dv());
                            }
                            Some(x)
                        },
                        _ => {
                            proof {
                                assert forall|x: AggregateVotesResponse| v.dv() != #[trigger] x.jval() by {
                                    if v.dv() == x.jval() {
                                        assert(v.dv()->Obj_0[0].1 == x.aggregate_votes.jval());
                                    }
                                }
                            }
                            None
                        },
                    }
                } else {
                    proof {
                        assert forall|x: AggregateVotesResponse| v.dv() != #[trigger] x.jval() by {
                            if v.dv() == x.jval() {
                                assert(v.dv()->Obj_0.len() == 1);
                                assert(v.dv()->Obj_0[0].0 == "aggregate_votes"@);
                            }
                        }
                    }
                    None
                }
            },
            _ => None,
        }
    }
}
/// Asks for the oracle module group's parameters.
#[derive(Clone, Debug, PartialEq, Eq)]
pub struct OracleParametersParams {
}
impl WireRecord for OracleParametersParams {
    open spec fn jval(self) -> JsonSpec {
        JsonSpec::Obj(Seq::empty())
    }

    proof fn jval_wf(self) {
    }

    fn build_jval(&self) -> (r: JsonVal) {
        let r = JsonVal::Obj(Vec::new());
        proof {
            assert(r.dv()->Obj_0 =~~= self.jval()->Obj_0);
            assert(r.dv() =~~= self.jval());
        }
        r
    }

    fn from_jval(v: &JsonVal) -> (r: Option<OracleParametersParams>) {
        match v {
            JsonVal::Obj(entries) => {
                if entries.len() == 0 {
                    let x = OracleParametersParams {  };
                    proof {
                        assert(x.jval()->Obj_0 =~~= v.dv()->Obj_0);
                        assert(x.jval() =~~= v.dv());
                    }
                    Some(x)
                } else {
                    proof {
                        assert forall|x: OracleParametersParams| v.dv() != #[trigger] x.jval() by {
                            assert(x.jval()->Obj_0.len() == 0);
                            assert(v.dv()->Obj_0.len() == entries@.len());
                        }
                    }
                    None
                }
            },
            _ => None,
        }
    }
}
/// The oracle module group's parameters.
#[derive(Clone, Debug, PartialEq, Eq)]
pub struct OracleParametersResponse {
    pub params: OracleParameters,
}
impl WireRecord for OracleParametersResponse {
    open spec fn jval(self) -> JsonSpec {
        JsonSpec::Obj(
            seq![
                ("params"@, self.params.jval()),
            ],
        )
    }

    proof fn jval_wf(self) {
        self.params.jval_wf();
        assert forall|k: int| 0 <= k < self.jval()->Obj_0.len() implies json_wf(
            #[trigger] self.jval()->Obj_0[k].1,
        ) by {
            if k == 0 {
                assert(json_wf(self.jval()->Obj_0[0].1));
            }
        }
    }

    fn build_jval(&self) -> (r: JsonVal) {
        let mut entries: Vec<JsonEntry> = Vec::new();
        entries.push(JsonEntry { key: String::from_str("params"), val: self.params.build_jval() });
        let ghost ges = entries@;
        let r = JsonVal::Obj(entries);
        proof {
            let dvs = r.dv()->Obj_0;
            assert(dvs.len() == 1);
            assert(dvs[0] == (ges[0].key@, ges[0].val.dv()));
            assert(r.dv()->Obj_0 =~~= self.jval()->Obj_0);
            assert(r.dv() =~~= self.jval());
            assert(ges[0].val.wf());
        }
        r
    }

    fn from_jval(v: &JsonVal) -> (r: Option<OracleParametersResponse>) {
        match v {
            JsonVal::Obj(entries) => {
                let shape = entries.len() == 1 && str_eq(entries[0].key.as_str(), "params");
                proof {
                    let dvs = v.dv()->Obj_0;
                    assert(dvs.len() == entries@.len());
                    if entries@.len() == 1 {
                        assert(dvs[0] == (entries@[0].key@, entries@[0].val.dv()));
                    }
                }
                if shape {
                    let g0: Option<OracleParameters> = WireRecord::from_jval(&entries[0].val);
                    match (g0) {
                        (Some(h0)) => {
                            let x = OracleParametersResponse { params: h0 };
                            proof {
                                assert(x.jval()->Obj_0 =~~= v.dv()->Obj_0);
                                assert(x.jval() =~~= v.dv());
                            }
                            Some(x)
                        },
                        _ => {
                            proof {
                                assert forall|x: OracleParametersResponse| v.dv() != #[trigger] x.jval() by {
                                    if v.dv() == x.jval() {
                                        assert(v.dv()->Obj_0[0].1 == x.params.jval());
                                    }
                                }
                            }
                            None
                        },
                    }
                } else {
                    proof {
                        assert forall|x: OracleParametersResponse| v.dv() != #[trigger] x.jval() by {
                            if v.dv() == x.jval() {
                                assert(v.dv()->Obj_0.len() == 1);
                                assert(v.dv()->Obj_0[0].0 == "params"@);
                            }
                        }
                    }
                    None
                }
            },
            _ => None,
        }
    }
}
/// Asks for a denomination's historic medians.
#[derive(Clone, Debug, PartialEq, Eq)]
pub struct MediansParams {
    pub denom: String,
}
impl WireRecord for MediansParams {
    open spec fn jval(self) -> JsonSpec {
        JsonSpec::Obj(
            seq![
                ("denom"@, self.denom.jval()),
            ],
        )
    }

    proof fn jval_wf(self) {
        self.denom.jval_wf();
        assert forall|k: int| 0 <= k < self.jval()->Obj_0.len() implies json_wf(
            #[trigger] self.jval()->Obj_0[k].1,
        ) by {
            if k == 0 {
                assert(json_wf(self.jval()->Obj_0[0].1));
            }
        }
    }

    fn build_jval(&self) -> (r: JsonVal) {
        let mut entries: Vec<JsonEntry> = Vec::new();
        entries.push(JsonEntry { key: String::from_str("denom"), val: self.denom.build_jval() });
        let ghost ges = entries@;
        let r = JsonVal::Obj(entries);
        proof {
            let dvs = r.dv()->Obj_0;
            assert(dvs.len() == 1);
            assert(dvs[0] == (ges[0].key@, ges[0].val.dv()));
            assert(r.dv()->Obj_0 =~~= self.jval()->Obj_0);
            assert(r.dv() =~~= self.jval());
            assert(ges[0].val.wf());
        }
        r
    }

    fn from_jval(v: &JsonVal) -> (r: Option<MediansParams>) {
        match v {
            JsonVal::Obj(entries) => {
                let shape = entries.len() == 1 && str_eq(entries[0].key.as_str(), "denom");
                proof {
                    let dvs = v.dv()->Obj_0;
                    assert(dvs.len() == entries@.len());
                    if entries@.len() == 1 {
                        assert(dvs[0] == (entries@[0].key@, entries@[0].val.dv()));
                    }
                }
                if shape {
                    let g0: Option<String> = WireRecord::from_jval(&entries[0].val);
                    match (g0) {
                        (Some(h0)) => {
                            let x = MediansParams { denom: h0 };
                            proof {
                                assert(x.jval()->Obj_0 =~~= v.dv()->Obj_0);
                                assert(x.jval() =~~= v.dv());
                            }
                            Some(x)
                        },
                        _ => {
                            proof {
                                assert forall|x: MediansParams| v.dv() != #[trigger] x.jval() by {
                                    if v.dv() == x.jval() {
                                        assert(v.dv()->Obj_0[0].1 == x.denom.jval());
                                    }
                                }
                            }
                            None
                        },
                    }
                } else {
                    proof {
                        assert forall|x: MediansParams| v.dv() != #[trigger] x.jval() by {
                            if v.dv() == x.jval() {
                                assert(v.dv()->Obj_0.len() == 1);
                                assert(v.dv()->Obj_0[0].0 == "denom"@);
                            }
                        }
                    }
                    None
                }
            },
            _ => None,
        }
    }
}
/// A denomination's historic medians.
#[derive(Clone, Debug, PartialEq, Eq)]
pub struct MediansParamsResponse {
    pub medians: Vec<DecCoin>,
}
impl WireRecord for MediansParamsResponse {
    open spec fn jval(self) -> JsonSpec {
        JsonSpec::Obj(
            seq![
                ("medians"@, self.medians.jval()),
            ],
        )
    }

    proof fn jval_wf(self) {
        self.medians.jval_wf();
        assert forall|k: int| 0 <= k < self.jval()->Obj_0.len() implies json_wf(
            #[trigger] self.jval()->Obj_0[k].1,
        ) by {
            if k == 0 {
                assert(json_wf(self.jval()->Obj_0[0].1));
            }
        }
    }

    fn build_jval(&self) -> (r: JsonVal) {
        let mut entries: Vec<JsonEntry> = Vec::new();
        entries.push(JsonEntry { key: String::from_str("medians"), val: self.medians.build_jval() });
        let ghost ges = entries@;
        let r = JsonVal::Obj(entries);
        proof {
            let dvs = r.dv()->Obj_0;
            assert(dvs.len() == 1);
            assert(dvs[0] == (ges[0].key@, ges[0].val.dv()));
            assert(r.dv()->Obj_0 =~~= self.jval()->Obj_0);
            assert(r.dv() =~~= self.jval());
            assert(ges[0].val.wf());
        }
        r
    }

    fn from_jval(v: &JsonVal) -> (r: Option<MediansParamsResponse>) {
        match v {
            JsonVal::Obj(entries) => {
                let shape = entries.len() == 1 && str_eq(entries[0].key.as_str(), "medians");
                proof {
                    let dvs = v.dv()->Obj_0;
                    assert(dvs.len() == entries@.len());
                    if entries@.len() == 1 {
                        assert(dvs[0] == (entries@[0].key@, entries@[0].val.dv()));
                    }
                }
                if shape {
                    let g0: Option<Vec<DecCoin>> = WireRecord::from_jval(&entries[0].val);
                    match (g0) {
                        (Some(h0)) => {
                            let x = MediansParamsResponse { medians: h0 };
                            proof {
                                assert(x.jval()->Obj_0 =~~= v.dv()->Obj_0);
                                assert(x.jval() =~~= v.dv());
                            }
                            Some(x)
                        },
                        _ => {
                            proof {
                                assert forall|x: MediansParamsResponse| v.dv() != #[trigger] x.jval() by {
                                    if v.dv() == x.jval() {
                                        assert(v.dv()->Obj_0[0].1 == x.medians.jval());
                                    }
                                }
                            }
                            None
                        },
                    }
                } else {
                    proof {
                        assert forall|x: MediansParamsResponse| v.dv() != #[trigger] x.jval() by {
                            if v.dv() == x.jval() {
                                assert(v.dv()->Obj_0.len() == 1);
                                assert(v.dv()->Obj_0[0].0 == "medians"@);
                            }
                        }
                    }
                    None
                }
            },
            _ => None,
        }
    }
}
/// Asks for a denomination's median deviations.
#[derive(Clone, Debug, PartialEq, Eq)]
pub struct MedianDeviationsParams {
    pub denom: String,
}
impl WireRecord for MedianDeviationsParams {
    open spec fn jval(self) -> JsonSpec {
        JsonSpec::Obj(
            seq![
                ("denom"@, self.denom.jval()),
            ],
        )
    }

    proof fn jval_wf(self) {
        self.denom.jval_wf();
        assert forall|k: int| 0 <= k < self.jval()->Obj_0.len() implies json_wf(
            #[trigger] self.jval()->Obj_0[k].1,
        ) by {
            if k == 0 {
                assert(json_wf(self.jval()->Obj_0[0].1));
            }
        }
    }

    fn build_jval(&self) -> (r: JsonVal) {
        let mut entries: Vec<JsonEntry> = Vec::new();
        entries.push(JsonEntry { key: String::from_str("denom"), val: self.denom.build_jval() });
        let ghost ges = entries@;
        let r = JsonVal::Obj(entries);
        proof {
            let dvs = r.dv()->Obj_0;
            assert(dvs.len() == 1);
            assert(dvs[0] == (ges[0].key@, ges[0].val.dv()));
            assert(r.dv()->Obj_0 =~~= self.jval()->Obj_0);
            assert(r.dv() =~~= self.jval());
            assert(ges[0].val.wf());
        }
        r
    }

    fn from_jval(v: &JsonVal) -> (r: Option<MedianDeviationsParams>) {
        match v {
            JsonVal::Obj(entries) => {
                let shape = entries.len() == 1 && str_eq(entries[0].key.as_str(), "denom");
                proof {
                    let dvs = v.dv()->Obj_0;
                    assert(dvs.len() == entries@.len());
                    if entries@.len() == 1 {
                        assert(dvs[0] == (entries@[0].key@, entries@[0].val.dv()));
                    }
                }
                if shape {
                    let g0: Option<String> = WireRecord::from_jval(&entries[0].val);
                    match (g0) {
                        (Some(h0)) => {
                            let x = MedianDeviationsParams { denom: h0 };
                            proof {
                                assert(x.jval()->Obj_0 =~~= v.dv()->Obj_0);
                                assert(x.jval() =~~= v.dv());
                            }
                            Some(x)
                        },
                        _ => {
                            proof {
                                assert forall|x: MedianDeviationsParams| v.dv() != #[trigger] x.jval() by {
                                    if v.dv() == x.jval() {
                                        assert(v.dv()->Obj_0[0].1 == x.denom.jval());
                                    }
                                }
                            }
                            None
                        },
                    }
                } else {
                    proof {
                        assert forall|x: MedianDeviationsParams| v.dv() != #[trigger] x.jval() by {
                            if v.dv() == x.jval() {
                                assert(v.dv()->Obj_0.len() == 1);
                                assert(v.dv()->Obj_0[0].0 == "denom"@);
                            }
                        }
                    }
                    None
                }
            },
            _ => None,
        }
    }
}
/// A denomination's median deviations.
#[derive(Clone, Debug, PartialEq, Eq)]
pub struct MedianDeviationsParamsResponse {
    pub median_deviations: Vec<DecCoin>,
}
impl WireRecord for MedianDeviationsParamsResponse {
    open spec fn jval(self) -> JsonSpec {
        JsonSpec::Obj(
            seq![
                ("median_deviations"@, self.median_deviations.jval()),
            ],
        )
    }

    proof fn jval_wf(self) {
        self.median_deviations.jval_wf();
        assert forall|k: int| 0 <= k < self.jval()->Obj_0.len() implies json_wf(
            #[trigger] self.jval()->Obj_0[k].1,
        ) by {
            if k == 0 {
                assert(json_wf(self.jval()->Obj_0[0].1));
            }
        }
    }

    fn build_jval(&self) -> (r: JsonVal) {
        let mut entries: Vec<JsonEntry> = Vec::new();
        entries.push(JsonEntry { key: String::from_str("median_deviations"), val: self.median_deviations.build_jval() });
        let ghost ges = entries@;
        let r = JsonVal::Obj(entries);
        proof {
            let dvs = r.dv()->Obj_0;
            assert(dvs.len() == 1);
            assert(dvs[0] == (ges[0].key@, ges[0].val.dv()));
            assert(r.dv()->Obj_0 =~~= self.jval()->Obj_0);
            assert(r.dv() =~~= self.jval());
            assert(ges[0].val.wf());
        }
        r
    }

    fn from_jval(v: &JsonVal) -> (r: Option<MedianDeviationsParamsResponse>) {
        match v {
            JsonVal::Obj(entries) => {
                let shape = entries.len() == 1 && str_eq(entries[0].key.as_str(), "median_deviations");
                proof {
                    let dvs = v.dv()->Obj_0;
                    assert(dvs.len() == entries@.len());
                    if entries@.len() == 1 {
                        assert(dvs[0] == (entries@[0].key@, entries@[0].val.dv()));
                    }
                }
                if shape {
                    let g0: Option<Vec<DecCoin>> = WireRecord::from_jval(&entries[0].val);
                    match (g0) {
                        (Some(h0)) => {
                            let x = MedianDeviationsParamsResponse { median_deviations: h0 };
                            proof {
                                assert(x.jval()->Obj_0 =~~= v.dv()->Obj_0);
                                assert(x.jval() =~~= v.dv());
                            }
                            Some(x)
                        },
                        _ => {
                            proof {
                                assert forall|x: MedianDeviationsParamsResponse| v.dv() != #[trigger] x.jval() by {
                                    if v.dv() == x.jval() {
                                        assert(v.dv()->Obj_0[0].1 == x.median_deviations.jval());
                                    }
                                }
                            }
                            None
                        },
                    }
                } else {
                    proof {
                        assert forall|x: MedianDeviationsParamsResponse| v.dv() != #[trigger] x.jval() by {
                            if v.dv() == x.jval() {
                                assert(v.dv()->Obj_0.len() == 1);
                                assert(v.dv()->Obj_0[0].0 == "median_deviations"@);
                            }
                        }
                    }
                    None
                }
            },
            _ => None,
        }
    }
}
/// Every query the oracle module group answers, tagged by kind.
#[derive(Clone, Debug, PartialEq, Eq)]
pub enum UmeeQueryOracle {
    ExchangeRates(ExchangeRatesParams),
    ActiveExchangeRates(ActiveExchangeRatesParams),
    FeederDelegation(FeederDelegationParams),
    MissCounter(MissCounterParams),
    SlashWindow(SlashWindowParams),
    AggregatePrevote(AggregatePrevoteParams),
    AggregatePrevotes(AggregatePrevotesParams),
    AggregateVote(AggregateVoteParams),
    AggregateVotes(AggregateVotesParams),
    OracleParameters(OracleParametersParams),
    Medians(MediansParams),
    MedianDeviations(MedianDeviationsParams),
}
/// Length and distinguishing characters of every variant key of the
/// wire shape.
proof fn lemma_umee_query_oracle_keys()
    ensures
        "exchange_rates"@.len() == 14,
        "active_exchange_rates"@.len() == 21,
        "feeder_delegation"@.len() == 17,
        "miss_counter"@.len() == 12,
        "slash_window"@.len() == 12,
        "aggregate_prevote"@.len() == 17,
        "aggregate_prevotes"@.len() == 18,
        "aggregate_vote"@.len() == 14,
        "aggregate_votes"@.len() == 15,
        "oracle_parameters"@.len() == 17,
        "medians"@.len() == 7,
        "median_deviations"@.len() == 17,
        "active_exchange_rates"@[0] == 'a',
        "aggregate_prevote"@[0] == 'a',
        "aggregate_prevotes"@[0] == 'a',
        "aggregate_vote"@[0] == 'a',
        "aggregate_votes"@[0] == 'a',
        "exchange_rates"@[0] == 'e',
        "feeder_delegation"@[0] == 'f',
        "median_deviations"@[0] == 'm',
        "medians"@[0] == 'm',
        "miss_counter"@[0] == 'm',
        "oracle_parameters"@[0] == 'o',
        "slash_window"@[0] == 's',
{
    reveal_strlit("exchange_rates");
    assert("exchange_rates"@ =~= seq!['e', 'x', 'c', 'h', 'a', 'n', 'g', 'e', '_', 'r', 'a', 't', 'e', 's']);
    reveal_strlit("active_exchange_rates");
    assert("active_exchange_rates"@ =~= seq!['a', 'c', 't', 'i', 'v', 'e', '_', 'e', 'x', 'c', 'h', 'a', 'n', 'g', 'e', '_', 'r', 'a', 't', 'e', 's']);
    reveal_strlit("feeder_delegation");
    assert("feeder_delegation"@ =~= seq!['f', 'e', 'e', 'd', 'e', 'r', '_', 'd', 'e', 'l', 'e', 'g', 'a', 't', 'i', 'o', 'n']);
    reveal_strlit("miss_counter");
    assert("miss_counter"@ =~= seq!['m', 'i', 's', 's', '_', 'c', 'o', 'u', 'n', 't', 'e', 'r']);
    reveal_strlit("slash_window");
    assert("slash_window"@ =~= seq!['s', 'l', 'a', 's', 'h', '_', 'w', 'i', 'n', 'd', 'o', 'w']);
    reveal_strlit("aggregate_prevote");
    assert("aggregate_prevote"@ =~= seq!['a', 'g', 'g', 'r', 'e', 'g', 'a', 't', 'e', '_', 'p', 'r', 'e', 'v', 'o', 't', 'e']);
    reveal_strlit("aggregate_prevotes");
    assert("aggregate_prevotes"@ =~= seq!['a', 'g', 'g', 'r', 'e', 'g', 'a', 't', 'e', '_', 'p', 'r', 'e', 'v', 'o', 't', 'e', 's']);
    reveal_strlit("aggregate_vote");
    assert("aggregate_vote"@ =~= seq!['a', 'g', 'g', 'r', 'e', 'g', 'a', 't', 'e', '_', 'v', 'o', 't', 'e']);
    reveal_strlit("aggregate_votes");
    assert("aggregate_votes"@ =~= seq!['a', 'g', 'g', 'r', 'e', 'g', 'a', 't', 'e', '_', 'v', 'o', 't', 'e', 's']);
    reveal_strlit("oracle_parameters");
    assert("oracle_parameters"@ =~= seq!['o', 'r', 'a', 'c', 'l', 'e', '_', 'p', 'a', 'r', 'a', 'm', 'e', 't', 'e', 'r', 's']);
    reveal_strlit("medians");
    assert("medians"@ =~= seq!['m', 'e', 'd', 'i', 'a', 'n', 's']);
    reveal_strlit("median_deviations");
    assert("median_deviations"@ =~= seq!['m', 'e', 'd', 'i', 'a', 'n', '_', 'd', 'e', 'v', 'i', 'a', 't', 'i', 'o', 'n', 's']);
}

/// Every value's wire record is a single-entry object.
proof fn lemma_umee_query_oracle_shape(x: UmeeQueryOracle)
    ensures
        x.jval() is Obj,
        x.jval()->Obj_0.len() == 1,
{
    match x {
        UmeeQueryOracle::ExchangeRates(q) => {
            assert(x.jval()->Obj_0.len() == 1);
        },
        UmeeQueryOracle::ActiveExchangeRates(q) => {
            assert(x.jval()->Obj_0.len() == 1);
        },
        UmeeQueryOracle::FeederDelegation(q) => {
            assert(x.jval()->Obj_0.len() == 1);
        },
        UmeeQueryOracle::MissCounter(q) => {
            assert(x.jval()->Obj_0.len() == 1);
        },
        UmeeQueryOracle::SlashWindow(q) => {
            assert(x.jval()->Obj_0.len() == 1);
        },
        UmeeQueryOracle::AggregatePrevote(q) => {
            assert(x.jval()->Obj_0.len() == 1);
        },
        UmeeQueryOracle::AggregatePrevotes(q) => {
            assert(x.jval()->Obj_0.len() == 1);
        },
        UmeeQueryOracle::AggregateVote(q) => {
            assert(x.jval()->Obj_0.len() == 1);
        },
        UmeeQueryOracle::AggregateVotes(q) => {
            assert(x.jval()->Obj_0.len() == 1);
        },
        UmeeQueryOracle::OracleParameters(q) => {
            assert(x.jval()->Obj_0.len() == 1);
        },
        UmeeQueryOracle::Medians(q) => {
            assert(x.jval()->Obj_0.len() == 1);
        },
        UmeeQueryOracle::MedianDeviations(q) => {
            assert(x.jval()->Obj_0.len() == 1);
        },
    }
}

/// A value whose wire record is this single entry is the variant the
/// entry's key names, and the entry's payload is that variant's.
proof fn lemma_umee_query_oracle_tag(x: UmeeQueryOracle, e: (Seq<char>, JsonSpec))
    requires
        JsonSpec::Obj(seq![e]) == x.jval(),
    ensures
        ({
            ||| (x matches UmeeQueryOracle::ExchangeRates(q) && e == ("exchange_rates"@, q.jval()))
            ||| (x matches UmeeQueryOracle::ActiveExchangeRates(q) && e == ("active_exchange_rates"@, q.jval()))
            ||| (x matches UmeeQueryOracle::FeederDelegation(q) && e == ("feeder_delegation"@, q.jval()))
            ||| (x matches UmeeQueryOracle::MissCounter(q) && e == ("miss_counter"@, q.jval()))
            ||| (x matches UmeeQueryOracle::SlashWindow(q) && e == ("slash_window"@, q.jval()))
            ||| (x matches UmeeQueryOracle::AggregatePrevote(q) && e == ("aggregate_prevote"@, q.jval()))
            ||| (x matches UmeeQueryOracle::AggregatePrevotes(q) && e == ("aggregate_prevotes"@, q.jval()))
            ||| (x matches UmeeQueryOracle::AggregateVote(q) && e == ("aggregate_vote"@, q.jval()))
            ||| (x matches UmeeQueryOracle::AggregateVotes(q) && e == ("aggregate_votes"@, q.jval()))
            ||| (x matches UmeeQueryOracle::OracleParameters(q) && e == ("oracle_parameters"@, q.jval()))
            ||| (x matches UmeeQueryOracle::Medians(q) && e == ("medians"@, q.jval()))
            ||| (x matches UmeeQueryOracle::MedianDeviations(q) && e == ("median_deviations"@, q.jval()))
        }),
{
    match x {
        UmeeQueryOracle::ExchangeRates(q) => {
            assert(x.jval()->Obj_0[0] == ("exchange_rates"@, q.jval()));
            assert(e == ("exchange_rates"@, q.jval()));
        },
        UmeeQueryOracle::ActiveExchangeRates(q) => {
            assert(x.jval()->Obj_0[0] == ("active_exchange_rates"@, q.jval()));
            assert(e == ("active_exchange_rates"@, q.jval()));
        },
        UmeeQueryOracle::FeederDelegation(q) => {
            assert(x.jval()->Obj_0[0] == ("feeder_delegation"@, q.jval()));
            assert(e == ("feeder_delegation"@, q.jval()));
        },
        UmeeQueryOracle::MissCounter(q) => {
            assert(x.jval()->Obj_0[0] == ("miss_counter"@, q.jval()));
            assert(e == ("miss_counter"@, q.jval()));
        },
        UmeeQueryOracle::SlashWindow(q) => {
            assert(x.jval()->Obj_0[0] == ("slash_window"@, q.jval()));
            assert(e == ("slash_window"@, q.jval()));
        },
        UmeeQueryOracle::AggregatePrevote(q) => {
            assert(x.jval()->Obj_0[0] == ("aggregate_prevote"@, q.jval()));
            assert(e == ("aggregate_prevote"@, q.jval()));
        },
        UmeeQueryOracle::AggregatePrevotes(q) => {
            assert(x.jval()->Obj_0[0] == ("aggregate_prevotes"@, q.jval()));
            assert(e == ("aggregate_prevotes"@, q.jval()));
        },
        UmeeQueryOracle::AggregateVote(q) => {
            assert(x.jval()->Obj_0[0] == ("aggregate_vote"@, q.jval()));
            assert(e == ("aggregate_vote"@, q.jval()));
        },
        UmeeQueryOracle::AggregateVotes(q) => {
            assert(x.jval()->Obj_0[0] == ("aggregate_votes"@, q.jval()));
            assert(e == ("aggregate_votes"@, q.jval()));
        },
        UmeeQueryOracle::OracleParameters(q) => {
            assert(x.jval()->Obj_0[0] == ("oracle_parameters"@, q.jval()));
            assert(e == ("oracle_parameters"@, q.jval()));
        },
        UmeeQueryOracle::Medians(q) => {
            assert(x.jval()->Obj_0[0] == ("medians"@, q.jval()));
            assert(e == ("medians"@, q.jval()));
        },
        UmeeQueryOracle::MedianDeviations(q) => {
            assert(x.jval()->Obj_0[0] == ("median_deviations"@, q.jval()));
            assert(e == ("median_deviations"@, q.jval()));
        },
    }
}

/// A single-entry wire shape under this key decodes only through its
/// own payload type.
proof fn lemma_umee_query_oracle_reject_exchange_rates(e: (Seq<char>, JsonSpec))
    requires
        e.0 == "exchange_rates"@,
        forall|y: ExchangeRatesParams| e.1 != #[trigger] y.jval(),
    ensures
        forall|x: UmeeQueryOracle| JsonSpec::Obj(seq![e]) != #[trigger] x.jval(),
{
    lemma_umee_query_oracle_keys();
    assert forall|x: UmeeQueryOracle| JsonSpec::Obj(seq![e]) != #[trigger] x.jval() by {
        if JsonSpec::Obj(seq![e]) == x.jval() {
            lemma_umee_query_oracle_tag(x, e);
            match x {
                UmeeQueryOracle::ExchangeRates(q) => {
                    assert(e.1 == q.jval());
                },
                _ => {},
            }
        }
    }
}

/// A single-entry wire shape under this key decodes only through its
/// own payload type.
proof fn lemma_umee_query_oracle_reject_active_exchange_rates(e: (Seq<char>, JsonSpec))
    requires
        e.0 == "active_exchange_rates"@,
        forall|y: ActiveExchangeRatesParams| e.1 != #[trigger] y.jval(),
    ensures
        forall|x: UmeeQueryOracle| JsonSpec::Obj(seq![e]) != #[trigger] x.jval(),
{
    lemma_umee_query_oracle_keys();
    assert forall|x: UmeeQueryOracle| JsonSpec::Obj(seq![e]) != #[trigger] x.jval() by {
        if JsonSpec::Obj(seq![e]) == x.jval() {
            lemma_umee_query_oracle_tag(x, e);
            match x {
                UmeeQueryOracle::ActiveExchangeRates(q) => {
                    assert(e.1 == q.jval());
                },
                _ => {},
            }
        }
    }
}

/// A single-entry wire shape under this key decodes only through its
/// own payload type.
proof fn lemma_umee_query_oracle_reject_feeder_delegation(e: (Seq<char>, JsonSpec))
    requires
        e.0 == "feeder_delegation"@,
        forall|y: FeederDelegationParams| e.1 != #[trigger] y.jval(),
    ensures
        forall|x: UmeeQueryOracle| JsonSpec::Obj(seq![e]) != #[trigger] x.jval(),
{
    lemma_umee_query_oracle_keys();
    assert forall|x: UmeeQueryOracle| JsonSpec::Obj(seq![e]) != #[trigger] x.jval() by {
        if JsonSpec::Obj(seq![e]) == x.jval() {
            lemma_umee_query_oracle_tag(x, e);
            match x {
                UmeeQueryOracle::FeederDelegation(q) => {
                    assert(e.1 == q.jval());
                },
                _ => {},
            }
        }
    }
}

/// A single-entry wire shape under this key decodes only through its
/// own payload type.
proof fn lemma_umee_query_oracle_reject_miss_counter(e: (Seq<char>, JsonSpec))
    requires
        e.0 == "miss_counter"@,
        forall|y: MissCounterParams| e.1 != #[trigger] y.jval(),
    ensures
        forall|x: UmeeQueryOracle| JsonSpec::Obj(seq![e]) != #[trigger] x.jval(),
{
    lemma_umee_query_oracle_keys();
    assert forall|x: UmeeQueryOracle| JsonSpec::Obj(seq![e]) != #[trigger] x.jval() by {
        if JsonSpec::Obj(seq![e]) == x.jval() {
            lemma_umee_query_oracle_tag(x, e);
            match x {
                UmeeQueryOracle::MissCounter(q) => {
                    assert(e.1 == q.jval());
                },
                _ => {},
            }
        }
    }
}

/// A single-entry wire shape under this key decodes only through its
/// own payload type.
proof fn lemma_umee_query_oracle_reject_slash_window(e: (Seq<char>, JsonSpec))
    requires
        e.0 == "slash_window"@,
        forall|y: SlashWindowParams| e.1 != #[trigger] y.jval(),
    ensures
        forall|x: UmeeQueryOracle| JsonSpec::Obj(seq![e]) != #[trigger] x.jval(),
{
    lemma_umee_query_oracle_keys();
    assert forall|x: UmeeQueryOracle| JsonSpec::Obj(seq![e]) != #[trigger] x.jval() by {
        if JsonSpec::Obj(seq![e]) == x.jval() {
            lemma_umee_query_oracle_tag(x, e);
            match x {
                UmeeQueryOracle::SlashWindow(q) => {
                    assert(e.1 == q.jval());
                },
                _ => {},
            }
        }
    }
}

/// A single-entry wire shape under this key decodes only through its
/// own payload type.
proof fn lemma_umee_query_oracle_reject_aggregate_prevote(e: (Seq<char>, JsonSpec))
    requires
        e.0 == "aggregate_prevote"@,
        forall|y: AggregatePrevoteParams| e.1 != #[trigger] y.jval(),
    ensures
        forall|x: UmeeQueryOracle| JsonSpec::Obj(seq![e]) != #[trigger] x.jval(),
{
    lemma_umee_query_oracle_keys();
    assert forall|x: UmeeQueryOracle| JsonSpec::Obj(seq![e]) != #[trigger] x.jval() by {
        if JsonSpec::Obj(seq![e]) == x.jval() {
            lemma_umee_query_oracle_tag(x, e);
            match x {
                UmeeQueryOracle::AggregatePrevote(q) => {
                    assert(e.1 == q.jval());
                },
                _ => {},
            }
        }
    }
}

/// A single-entry wire shape under this key decodes only through its
/// own payload type.
proof fn lemma_umee_query_oracle_reject_aggregate_prevotes(e: (Seq<char>, JsonSpec))
    requires
        e.0 == "aggregate_prevotes"@,
        forall|y: AggregatePrevotesParams| e.1 != #[trigger] y.jval(),
    ensures
        forall|x: UmeeQueryOracle| JsonSpec::Obj(seq![e]) != #[trigger] x.jval(),
{
    lemma_umee_query_oracle_keys();
    assert forall|x: UmeeQueryOracle| JsonSpec::Obj(seq![e]) != #[trigger] x.jval() by {
        if JsonSpec::Obj(seq![e]) == x.jval() {
            lemma_umee_query_oracle_tag(x, e);
            match x {
                UmeeQueryOracle::AggregatePrevotes(q) => {
                    assert(e.1 == q.jval());
                },
                _ => {},
            }
        }
    }
}

/// A single-entry wire shape under this key decodes only through its
/// own payload type.
proof fn lemma_umee_query_oracle_reject_aggregate_vote(e: (Seq<char>, JsonSpec))
    requires
        e.0 == "aggregate_vote"@,
        forall|y: AggregateVoteParams| e.1 != #[trigger] y.jval(),
    ensures
        forall|x: UmeeQueryOracle| JsonSpec::Obj(seq![e]) != #[trigger] x.jval(),
{
    lemma_umee_query_oracle_keys();
    assert forall|x: UmeeQueryOracle| JsonSpec::Obj(seq![e]) != #[trigger] x.jval() by {
        if JsonSpec::Obj(seq![e]) == x.jval() {
            lemma_umee_query_oracle_tag(x, e);
            match x {
                UmeeQueryOracle::AggregateVote(q) => {
                    assert(e.1 == q.jval());
                },
                _ => {},
            }
        }
    }
}

/// A single-entry wire shape under this key decodes only through its
/// own payload type.
proof fn lemma_umee_query_oracle_reject_aggregate_votes(e: (Seq<char>, JsonSpec))
    requires
        e.0 == "aggregate_votes"@,
        forall|y: AggregateVotesParams| e.1 != #[trigger] y.jval(),
    ensures
        forall|x: UmeeQueryOracle| JsonSpec::Obj(seq![e]) != #[trigger] x.jval(),
{
    lemma_umee_query_oracle_keys();
    assert forall|x: UmeeQueryOracle| JsonSpec::Obj(seq![e]) != #[trigger] x.jval() by {
        if JsonSpec::Obj(seq![e]) == x.jval() {
            lemma_umee_query_oracle_tag(x, e);
            match x {
                UmeeQueryOracle::AggregateVotes(q) => {
                    assert(e.1 == q.jval());
                },
                _ => {},
            }
        }
    }
}

/// A single-entry wire shape under this key decodes only through its
/// own payload type.
proof fn lemma_umee_query_oracle_reject_oracle_parameters(e: (Seq<char>, JsonSpec))
    requires
        e.0 == "oracle_parameters"@,
        forall|y: OracleParametersParams| e.1 != #[trigger] y.jval(),
    ensures
        forall|x: UmeeQueryOracle| JsonSpec::Obj(seq![e]) != #[trigger] x.jval(),
{
    lemma_umee_query_oracle_keys();
    assert forall|x: UmeeQueryOracle| JsonSpec::Obj(seq![e]) != #[trigger] x.jval() by {
        if JsonSpec::Obj(seq![e]) == x.jval() {
            lemma_umee_query_oracle_tag(x, e);
            match x {
                UmeeQueryOracle::OracleParameters(q) => {
                    assert(e.1 == q.jval());
                },
                _ => {},
            }
        }
    }
}

/// A single-entry wire shape under this key decodes only through its
/// own payload type.
proof fn lemma_umee_query_oracle_reject_medians(e: (Seq<char>, JsonSpec))
    requires
        e.0 == "medians"@,
        forall|y: MediansParams| e.1 != #[trigger] y.jval(),
    ensures
        forall|x: UmeeQueryOracle| JsonSpec::Obj(seq![e]) != #[trigger] x.jval(),
{
    lemma_umee_query_oracle_keys();
    assert forall|x: UmeeQueryOracle| JsonSpec::Obj(seq![e]) != #[trigger] x.jval() by {
        if JsonSpec::Obj(seq![e]) == x.jval() {
            lemma_umee_query_oracle_tag(x, e);
            match x {
                UmeeQueryOracle::Medians(q) => {
                    assert(e.1 == q.jval());
                },
                _ => {},
            }
        }
    }
}

/// A single-entry wire shape under this key decodes only through its
/// own payload type.
proof fn lemma_umee_query_oracle_reject_median_deviations(e: (Seq<char>, JsonSpec))
    requires
        e.0 == "median_deviations"@,
        forall|y: MedianDeviationsParams| e.1 != #[trigger] y.jval(),
    ensures
        forall|x: UmeeQueryOracle| JsonSpec::Obj(seq![e]) != #[trigger] x.jval(),
{
    lemma_umee_query_oracle_keys();
    assert forall|x: UmeeQueryOracle| JsonSpec::Obj(seq![e]) != #[trigger] x.jval() by {
        if JsonSpec::Obj(seq![e]) == x.jval() {
            lemma_umee_query_oracle_tag(x, e);
            match x {
                UmeeQueryOracle::MedianDeviations(q) => {
                    assert(e.1 == q.jval());
                },
                _ => {},
            }
        }
    }
}

/// A single-entry wire shape under an unknown key decodes to nothing.
proof fn lemma_umee_query_oracle_reject_other(e: (Seq<char>, JsonSpec))
    requires
        e.0 != "exchange_rates"@,
        e.0 != "active_exchange_rates"@,
        e.0 != "feeder_delegation"@,
        e.0 != "miss_counter"@,
        e.0 != "slash_window"@,
        e.0 != "aggregate_prevote"@,
        e.0 != "aggregate_prevotes"@,
        e.0 != "aggregate_vote"@,
        e.0 != "aggregate_votes"@,
        e.0 != "oracle_parameters"@,
        e.0 != "medians"@,
        e.0 != "median_deviations"@,
    ensures
        forall|x: UmeeQueryOracle| JsonSpec::Obj(seq![e]) != #[trigger] x.jval(),
{
    assert forall|x: UmeeQueryOracle| JsonSpec::Obj(seq![e]) != #[trigger] x.jval() by {
        if JsonSpec::Obj(seq![e]) == x.jval() {
            lemma_umee_query_oracle_tag(x, e);
        }
    }
}

impl WireRecord for UmeeQueryOracle {
    open spec fn jval(self) -> JsonSpec {
        match self {
            UmeeQueryOracle::ExchangeRates(p) => JsonSpec::Obj(seq![("exchange_rates"@, p.jval())]),
            UmeeQueryOracle::ActiveExchangeRates(p) => JsonSpec::Obj(seq![("active_exchange_rates"@, p.jval())]),
            UmeeQueryOracle::FeederDelegation(p) => JsonSpec::Obj(seq![("feeder_delegation"@, p.jval())]),
            UmeeQueryOracle::MissCounter(p) => JsonSpec::Obj(seq![("miss_counter"@, p.jval())]),
            UmeeQueryOracle::SlashWindow(p) => JsonSpec::Obj(seq![("slash_window"@, p.jval())]),
            UmeeQueryOracle::AggregatePrevote(p) => JsonSpec::Obj(seq![("aggregate_prevote"@, p.jval())]),
            UmeeQueryOracle::AggregatePrevotes(p) => JsonSpec::Obj(seq![("aggregate_prevotes"@, p.jval())]),
            UmeeQueryOracle::AggregateVote(p) => JsonSpec::Obj(seq![("aggregate_vote"@, p.jval())]),
            UmeeQueryOracle::AggregateVotes(p) => JsonSpec::Obj(seq![("aggregate_votes"@, p.jval())]),
            UmeeQueryOracle::OracleParameters(p) => JsonSpec::Obj(seq![("oracle_parameters"@, p.jval())]),
            UmeeQueryOracle::Medians(p) => JsonSpec::Obj(seq![("medians"@, p.jval())]),
            UmeeQueryOracle::MedianDeviations(p) => JsonSpec::Obj(seq![("median_deviations"@, p.jval())]),
        }
    }

    proof fn jval_wf(self) {
        match self {
            UmeeQueryOracle::ExchangeRates(p) => {
                p.jval_wf();
                assert forall|k: int| 0 <= k < self.jval()->Obj_0.len() implies json_wf(
                    #[trigger] self.jval()->Obj_0[k].1,
                ) by {
                    assert(json_wf(self.jval()->Obj_0[0].1));
                }
            },
            UmeeQueryOracle::ActiveExchangeRates(p) => {
                p.jval_wf();
                assert forall|k: int| 0 <= k < self.jval()->Obj_0.len() implies json_wf(
                    #[trigger] self.jval()->Obj_0[k].1,
                ) by {
                    assert(json_wf(self.jval()->Obj_0[0].1));
                }
            },
            UmeeQueryOracle::FeederDelegation(p) => {
                p.jval_wf();
                assert forall|k: int| 0 <= k < self.jval()->Obj_0.len() implies json_wf(
                    #[trigger] self.jval()->Obj_0[k].1,
                ) by {
                    assert(json_wf(self.jval()->Obj_0[0].1));
                }
            },
            UmeeQueryOracle::MissCounter(p) => {
                p.jval_wf();
                assert forall|k: int| 0 <= k < self.jval()->Obj_0.len() implies json_wf(
                    #[trigger] self.jval()->Obj_0[k].1,
                ) by {
                    assert(json_wf(self.jval()->Obj_0[0].1));
                }
            },
            UmeeQueryOracle::SlashWindow(p) => {
                p.jval_wf();
                assert forall|k: int| 0 <= k < self.jval()->Obj_0.len() implies json_wf(
                    #[trigger] self.jval()->Obj_0[k].1,
                ) by {
                    assert(json_wf(self.jval()->Obj_0[0].1));
                }
            },
            UmeeQueryOracle::AggregatePrevote(p) => {
                p.jval_wf();
                assert forall|k: int| 0 <= k < self.jval()->Obj_0.len() implies json_wf(
                    #[trigger] self.jval()->Obj_0[k].1,
                ) by {
                    assert(json_wf(self.jval()->Obj_0[0].1));
                }
            },
            UmeeQueryOracle::AggregatePrevotes(p) => {
                p.jval_wf();
                assert forall|k: int| 0 <= k < self.jval()->Obj_0.len() implies json_wf(
                    #[trigger] self.jval()->Obj_0[k].1,
                ) by {
                    assert(json_wf(self.jval()->Obj_0[0].1));
                }
            },
            UmeeQueryOracle::AggregateVote(p) => {
                p.jval_wf();
                assert forall|k: int| 0 <= k < self.jval()->Obj_0.len() implies json_wf(
                    #[trigger] self.jval()->Obj_0[k].1,
                ) by {
                    assert(json_wf(self.jval()->Obj_0[0].1));
                }
            },
            UmeeQueryOracle::AggregateVotes(p) => {
                p.jval_wf();
                assert forall|k: int| 0 <= k < self.jval()->Obj_0.len() implies json_wf(
                    #[trigger] self.jval()->Obj_0[k].1,
                ) by {
                    assert(json_wf(self.jval()->Obj_0[0].1));
                }
            },
            UmeeQueryOracle::OracleParameters(p) => {
                p.jval_wf();
                assert forall|k: int| 0 <= k < self.jval()->Obj_0.len() implies json_wf(
                    #[trigger] self.jval()->Obj_0[k].1,
                ) by {
                    assert(json_wf(self.jval()->Obj_0[0].1));
                }
            },
            UmeeQueryOracle::Medians(p) => {
                p.jval_wf();
                assert forall|k: int| 0 <= k < self.jval()->Obj_0.len() implies json_wf(
                    #[trigger] self.jval()->Obj_0[k].1,
                ) by {
                    assert(json_wf(self.jval()->Obj_0[0].1));
                }
            },
            UmeeQueryOracle::MedianDeviations(p) => {
                p.jval_wf();
                assert forall|k: int| 0 <= k < self.jval()->Obj_0.len() implies json_wf(
                    #[trigger] self.jval()->Obj_0[k].1,
                ) by {
                    assert(json_wf(self.jval()->Obj_0[0].1));
                }
            },
        }
    }

    fn build_jval(&self) -> (r: JsonVal) {
        match self {
            UmeeQueryOracle::ExchangeRates(p) => {
                let mut entries: Vec<JsonEntry> = Vec::new();
                entries.push(JsonEntry { key: String::from_str("exchange_rates"), val: p.build_jval() });
                let ghost ges = entries@;
                let r = JsonVal::Obj(entries);
                proof {
                    assert(r.dv()->Obj_0[0] == (ges[0].key@, ges[0].val.dv()));
                    assert(r.dv()->Obj_0 =~~= self.jval()->Obj_0);
                    assert(r.dv() =~~= self.jval());
                    assert(ges[0].val.wf());
                }
                r
            },
            UmeeQueryOracle::ActiveExchangeRates(p) => {
                let mut entries: Vec<JsonEntry> = Vec::new();
                entries.push(JsonEntry { key: String::from_str("active_exchange_rates"), val: p.build_jval() });
                let ghost ges = entries@;
                let r = JsonVal::Obj(entries);
                proof {
                    assert(r.dv()->Obj_0[0] == (ges[0].key@, ges[0].val.dv()));
                    assert(r.dv()->Obj_0 =~~= self.jval()->Obj_0);
                    assert(r.dv() =~~= self.jval());
                    assert(ges[0].val.wf());
                }
                r
            },
            UmeeQueryOracle::FeederDelegation(p) => {
                let mut entries: Vec<JsonEntry> = Vec::new();
                entries.push(JsonEntry { key: String::from_str("feeder_delegation"), val: p.build_jval() });
                let ghost ges = entries@;
                let r = JsonVal::Obj(entries);
                proof {
                    assert(r.dv()->Obj_0[0] == (ges[0].key@, ges[0].val.dv()));
                    assert(r.dv()->Obj_0 =~~= self.jval()->Obj_0);
                    assert(r.dv() =~~= self.jval());
                    assert(ges[0].val.wf());
                }
                r
            },
            UmeeQueryOracle::MissCounter(p) => {
                let mut entries: Vec<JsonEntry> = Vec::new();
                entries.push(JsonEntry { key: String::from_str("miss_counter"), val: p.build_jval() });
                let ghost ges = entries@;
                let r = JsonVal::Obj(entries);
                proof {
                    assert(r.dv()->Obj_0[0] == (ges[0].key@, ges[0].val.dv()));
                    assert(r.dv()->Obj_0 =~~= self.jval()->Obj_0);
                    assert(r.dv() =~~= self.jval());
                    assert(ges[0].val.wf());
                }
                r
            },
            UmeeQueryOracle::SlashWindow(p) => {
                let mut entries: Vec<JsonEntry> = Vec::new();
                entries.push(JsonEntry { key: String::from_str("slash_window"), val: p.build_jval() });
                let ghost ges = entries@;
                let r = JsonVal::Obj(entries);
                proof {
                    assert(r.dv()->Obj_0[0] == (ges[0].key@, ges[0].val.dv()));
                    assert(r.dv()->Obj_0 =~~= self.jval()->Obj_0);
                    assert(r.dv() =~~= self.jval());
                    assert(ges[0].val.wf());
                }
                r
            },
            UmeeQueryOracle::AggregatePrevote(p) => {
                let mut entries: Vec<JsonEntry> = Vec::new();
                entries.push(JsonEntry { key: String::from_str("aggregate_prevote"), val: p.build_jval() });
                let ghost ges = entries@;
                let r = JsonVal::Obj(entries);
                proof {
                    assert(r.dv()->Obj_0[0] == (ges[0].key@, ges[0].val.dv()));
                    assert(r.dv()->Obj_0 =~~= self.jval()->Obj_0);
                    assert(r.dv() =~~= self.jval());
                    assert(ges[0].val.wf());
                }
                r
            },
            UmeeQueryOracle::AggregatePrevotes(p) => {
                let mut entries: Vec<JsonEntry> = Vec::new();
                entries.push(JsonEntry { key: String::from_str("aggregate_prevotes"), val: p.build_jval() });
                let ghost ges = entries@;
                let r = JsonVal::Obj(entries);
                proof {
                    assert(r.dv()->Obj_0[0] == (ges[0].key@, ges[0].val.dv()));
                    assert(r.dv()->Obj_0 =~~= self.jval()->Obj_0);
                    assert(r.dv() =~~= self.jval());
                    assert(ges[0].val.wf());
                }
                r
            },
            UmeeQueryOracle::AggregateVote(p) => {
                let mut entries: Vec<JsonEntry> = Vec::new();
                entries.push(JsonEntry { key: String::from_str("aggregate_vote"), val: p.build_jval() });
                let ghost ges = entries@;
                let r = JsonVal::Obj(entries);
                proof {
                    assert(r.dv()->Obj_0[0] == (ges[0].key@, ges[0].val.dv()));
                    assert(r.dv()->Obj_0 =~~= self.jval()->Obj_0);
                    assert(r.dv() =~~= self.jval());
                    assert(ges[0].val.wf());
                }
                r
            },
            UmeeQueryOracle::AggregateVotes(p) => {
                let mut entries: Vec<JsonEntry> = Vec::new();
                entries.push(JsonEntry { key: String::from_str("aggregate_votes"), val: p.build_jval() });
                let ghost ges = entries@;
                let r = JsonVal::Obj(entries);
                proof {
                    assert(r.dv()->Obj_0[0] == (ges[0].key@, ges[0].val.dv()));
                    assert(r.dv()->Obj_0 =~~= self.jval()->Obj_0);
                    assert(r.dv() =~~= self.jval());
                    assert(ges[0].val.wf());
                }
                r
            },
            UmeeQueryOracle::OracleParameters(p) => {
                let mut entries: Vec<JsonEntry> = Vec::new();
                entries.push(JsonEntry { key: String::from_str("oracle_parameters"), val: p.build_jval() });
                let ghost ges = entries@;
                let r = JsonVal::Obj(entries);
                proof {
                    assert(r.dv()->Obj_0[0] == (ges[0].key@, ges[0].val.dv()));
                    assert(r.dv()->Obj_0 =~~= self.jval()->Obj_0);
                    assert(r.dv() =~~= self.jval());
                    assert(ges[0].val.wf());
                }
                r
            },
            UmeeQueryOracle::Medians(p) => {
                let mut entries: Vec<JsonEntry> = Vec::new();
                entries.push(JsonEntry { key: String::from_str("medians"), val: p.build_jval() });
                let ghost ges = entries@;
                let r = JsonVal::Obj(entries);
                proof {
                    assert(r.dv()->Obj_0[0] == (ges[0].key@, ges[0].val.dv()));
                    assert(r.dv()->Obj_0 =~~= self.jval()->Obj_0);
                    assert(r.dv() =~~= self.jval());
                    assert(ges[0].val.wf());
                }
                r
            },
            UmeeQueryOracle::MedianDeviations(p) => {
                let mut entries: Vec<JsonEntry> = Vec::new();
                entries.push(JsonEntry { key: String::from_str("median_deviations"), val: p.build_jval() });
                let ghost ges = entries@;
                let r = JsonVal::Obj(entries);
                proof {
                    assert(r.dv()->Obj_0[0] == (ges[0].key@, ges[0].val.dv()));
                    assert(r.dv()->Obj_0 =~~= self.jval()->Obj_0);
                    assert(r.dv() =~~= self.jval());
                    assert(ges[0].val.wf());
                }
                r
            },
        }
    }

    fn from_jval(v: &JsonVal) -> (r: Option<UmeeQueryOracle>) {
        match v {
            JsonVal::Obj(entries) => {
                if entries.len() == 1 {
                    proof {
                        assert(v.dv()->Obj_0[0] == (entries@[0].key@, entries@[0].val.dv()));
                        assert(v.dv()->Obj_0 =~~= seq![(entries@[0].key@, entries@[0].val.dv())]);
                        assert(v.dv() =~~= JsonSpec::Obj(seq![(entries@[0].key@, entries@[0].val.dv())]));
                    }
                    let key = entries[0].key.as_str();
                    if str_eq(key, "exchange_rates") {
                        match WireRecord::from_jval(&entries[0].val) {
                            Some(p) => {
                                let x = UmeeQueryOracle::ExchangeRates(p);
                                proof {
                                    assert(x.jval()->Obj_0 =~~= v.dv()->Obj_0);
                                    assert(x.jval() =~~= v.dv());
                                }
                                Some(x)
                            },
                            None => {
                                proof {
                                    lemma_umee_query_oracle_reject_exchange_rates((entries@[0].key@, entries@[0].val.dv()));
                                }
                                None
                            },
                        }
                    } else if str_eq(key, "active_exchange_rates") {
                        match WireRecord::from_jval(&entries[0].val) {
                            Some(p) => {
                                let x = UmeeQueryOracle::ActiveExchangeRates(p);
                                proof {
                                    assert(x.jval()->Obj_0 =~~= v.dv()->Obj_0);
                                    assert(x.jval() =~~= v.dv());
                                }
                                Some(x)
                            },
                            None => {
                                proof {
                                    lemma_umee_query_oracle_reject_active_exchange_rates((entries@[0].key@, entries@[0].val.dv()));
                                }
                                None
                            },
                        }
                    } else if str_eq(key, "feeder_delegation") {
                        match WireRecord::from_jval(&entries[0].val) {
                            Some(p) => {
                                let x = UmeeQueryOracle::FeederDelegation(p);
                                proof {
                                    assert(x.jval()->Obj_0 =~~= v.dv()->Obj_0);
                                    assert(x.jval() =~~= v.dv());
                                }
                                Some(x)
                            },
                            None => {
                                proof {
                                    lemma_umee_query_oracle_reject_feeder_delegation((entries@[0].key@, entries@[0].val.dv()));
                                }
                                None
                            },
                        }
                    } else if str_eq(key, "miss_counter") {
                        match WireRecord::from_jval(&entries[0].val) {
                            Some(p) => {
                                let x = UmeeQueryOracle::MissCounter(p);
                                proof {
                                    assert(x.jval()->Obj_0 =~~= v.dv()->Obj_0);
                                    assert(x.jval() =~~= v.dv());
                                }
                                Some(x)
                            },
                            None => {
                                proof {
                                    lemma_umee_query_oracle_reject_miss_counter((entries@[0].key@, entries@[0].val.dv()));
                                }
                                None
                            },
                        }
                    } else if str_eq(key, "slash_window") {
                        match WireRecord::from_jval(&entries[0].val) {
                            Some(p) => {
                                let x = UmeeQueryOracle::SlashWindow(p);
                                proof {
                                    assert(x.jval()->Obj_0 =~~= v.dv()->Obj_0);
                                    assert(x.jval() =~~= v.dv());
                                }
                                Some(x)
                            },
                            None => {
                                proof {
                                    lemma_umee_query_oracle_reject_slash_window((entries@[0].key@, entries@[0].val.dv()));
                                }
                                None
                            },
                        }
                    } else if str_eq(key, "aggregate_prevote") {
                        match WireRecord::from_jval(&entries[0].val) {
                            Some(p) => {
                                let x = UmeeQueryOracle::AggregatePrevote(p);
                                proof {
                                    assert(x.jval()->Obj_0 =~~= v.dv()->Obj_0);
                                    assert(x.jval() =~~= v.dv());
                                }
                                Some(x)
                            },
                            None => {
                                proof {
                                    lemma_umee_query_oracle_reject_aggregate_prevote((entries@[0].key@, entries@[0].val.dv()));
                                }
                                None
                            },
                        }
                    } else if str_eq(key, "aggregate_prevotes") {
                        match WireRecord::from_jval(&entries[0].val) {
                            Some(p) => {
                                let x = UmeeQueryOracle::AggregatePrevotes(p);
                                proof {
                                    assert(x.jval()->Obj_0 =~~= v.dv()->Obj_0);
                                    assert(x.jval() =~~= v.dv());
                                }
                                Some(x)
                            },
                            None => {
                                proof {
                                    lemma_umee_query_oracle_reject_aggregate_prevotes((entries@[0].key@, entries@[0].val.dv()));
                                }
                                None
                            },
                        }
                    } else if str_eq(key, "aggregate_vote") {
                        match WireRecord::from_jval(&entries[0].val) {
                            Some(p) => {
                                let x = UmeeQueryOracle::AggregateVote(p);
                                proof {
                                    assert(x.jval()->Obj_0 =~~= v.dv()->Obj_0);
                                    assert(x.jval() =~~= v.dv());
                                }
                                Some(x)
                            },
                            None => {
                                proof {
                                    lemma_umee_query_oracle_reject_aggregate_vote((entries@[0].key@, entries@[0].val.dv()));
                                }
                                None
                            },
                        }
                    } else if str_eq(key, "aggregate_votes") {
                        match WireRecord::from_jval(&entries[0].val) {
                            Some(p) => {
                                let x = UmeeQueryOracle::AggregateVotes(p);
                                proof {
                                    assert(x.jval()->Obj_0 =~~= v.dv()->Obj_0);
                                    assert(x.jval() =~~= v.dv());
                                }
                                Some(x)
                            },
                            None => {
                                proof {
                                    lemma_umee_query_oracle_reject_aggregate_votes((entries@[0].key@, entries@[0].val.dv()));
                                }
                                None
                            },
                        }
                    } else if str_eq(key, "oracle_parameters") {
                        match WireRecord::from_jval(&entries[0].val) {
                            Some(p) => {
                                let x = UmeeQueryOracle::OracleParameters(p);
                                proof {
                                    assert(x.jval()->Obj_0 =~~= v.dv()->Obj_0);
                                    assert(x.jval() =~~= v.dv());
                                }
                                Some(x)
                            },
                            None => {
                                proof {
                                    lemma_umee_query_oracle_reject_oracle_parameters((entries@[0].key@, entries@[0].val.dv()));
                                }
                                None
                            },
                        }
                    } else if str_eq(key, "medians") {
                        match WireRecord::from_jval(&entries[0].val) {
                            Some(p) => {
                                let x = UmeeQueryOracle::Medians(p);
                                proof {
                                    assert(x.jval()->Obj_0 =~~= v.dv()->Obj_0);
                                    assert(x.jval() =~~= v.dv());
                                }
                                Some(x)
                            },
                            None => {
                                proof {
                                    lemma_umee_query_oracle_reject_medians((entries@[0].key@, entries@[0].val.dv()));
                                }
                                None
                            },
                        }
                    } else if str_eq(key, "median_deviations") {
                        match WireRecord::from_jval(&entries[0].val) {
                            Some(p) => {
                                let x = UmeeQueryOracle::MedianDeviations(p);
                                proof {
                                    assert(x.jval()->Obj_0 =~~= v.dv()->Obj_0);
                                    assert(x.jval() =~~= v.dv());
                                }
                                Some(x)
                            },
                            None => {
                                proof {
                                    lemma_umee_query_oracle_reject_median_deviations((entries@[0].key@, entries@[0].val.dv()));
                                }
                                None
                            },
                        }
                    } else {
                        proof {
                            lemma_umee_query_oracle_reject_other((entries@[0].key@, entries@[0].val.dv()));
                        }
                        None
                    }
                } else {
                    proof {
                        assert forall|x: UmeeQueryOracle| v.dv() != #[trigger] x.jval() by {
                            lemma_umee_query_oracle_shape(x);
                        }
                    }
                    None
                }
            },
            _ => {
                proof {
                    assert forall|x: UmeeQueryOracle| v.dv() != #[trigger] x.jval() by {
                        lemma_umee_query_oracle_shape(x);
                    }
                }
                None
            },
        }
    }
}
} // verus!
