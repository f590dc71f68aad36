//! The oracle module group's standing vote record.
use vstd::prelude::*;

use crate::base::Decimal256;
use crate::record::WireRecord;
use crate::wire::{json_wf, str_eq, JsonEntry, JsonSpec, JsonVal};

verus! {

broadcast use vstd::string::group_string_axioms;

/// One denomination's exchange rate inside an aggregate vote.
#[derive(Clone, Debug, PartialEq, Eq)]
pub struct ExchangeRateTuple {
    pub denom: String,
    pub exchange_rate: Decimal256,
}
impl WireRecord for ExchangeRateTuple {
    open spec fn jval(self) -> JsonSpec {
        JsonSpec::Obj(
            seq![
                ("denom"@, self.denom.jval()),
                ("exchange_rate"@, self.exchange_rate.jval()),
            ],
        )
    }

    proof fn jval_wf(self) {
        self.denom.jval_wf();
        self.exchange_rate.jval_wf();
        assert forall|k: int| 0 <= k < self.jval()->Obj_0.len() implies json_wf(
            #[trigger] self.jval()->Obj_0[k].1,
        ) by {
            if k == 0 {
                assert(json_wf(self.jval()->Obj_0[0].1));
            }
            if k == 1 {
                assert(json_wf(self.jval()->Obj_0[1].1));
            }
        }
    }

    fn build_jval(&self) -> (r: JsonVal) {
        let mut entries: Vec<JsonEntry> = Vec::new();
        entries.push(JsonEntry { key: String::from_str("denom"), val: self.denom.build_jval() });
        entries.push(JsonEntry { key: String::from_str("exchange_rate"), val: self.exchange_rate.build_jval() });
        let ghost ges = entries@;
        let r = JsonVal::Obj(entries);
        proof {
            let dvs = r.dv()->Obj_0;
            assert(dvs.len() == 2);
            assert(dvs[0] == (ges[0].key@, ges[0].val.dv()));
            assert(dvs[1] == (ges[1].key@, ges[1].val.dv()));
            assert(r.dv()->Obj_0 =~~= self.jval()->Obj_0);
            assert(r.dv() =~~= self.jval());
            assert(ges[0].val.wf());
            assert(ges[1].val.wf());
        }
        r
    }

    fn from_jval(v: &JsonVal) -> (r: Option<ExchangeRateTuple>) {
        match v {
            JsonVal::Obj(entries) => {
                let shape = entries.len() == 2 && str_eq(entries[0].key.as_str(), "denom") && str_eq(entries[1].key.as_str(), "exchange_rate");
                proof {
                    let dvs = v.dv()->Obj_0;
                    assert(dvs.len() == entries@.len());
                    if entries@.len() == 2 {
                        assert(dvs[0] == (entries@[0].key@, entries@[0].val.dv()));
                        assert(dvs[1] == (entries@[1].key@, entries@[1].val.dv()));
                    }
                }
                if shape {
                    let g0: Option<String> = WireRecord::from_jval(&entries[0].val);
                    let g1: Option<Decimal256> = WireRecord::from_jval(&entries[1].val);
                    match (g0, g1) {
                        (Some(h0), Some(h1)) => {
                            let x = ExchangeRateTuple { denom: h0, exchange_rate: h1 };
                            proof {
                                assert(x.jval()->Obj_0 =~~= v.dv()->Obj_0);
                                assert(x.jval() =~~= v.dv());
                            }
                            Some(x)
                        },
                        _ => {
                            proof {
                                assert forall|x: ExchangeRateTuple| v.dv() != #[trigger] x.jval() by {
                                    if v.dv() == x.jval() {
                                        assert(v.dv()->Obj_0[0].1 == x.denom.jval());
                                        assert(v.dv()->Obj_0[1].1 == x.exchange_rate.jval());
                                    }
                                }
                            }
                            None
                        },
                    }
                } else {
                    proof {
                        assert forall|x: ExchangeRateTuple| v.dv() != #[trigger] x.jval() by {
                            if v.dv() == x.jval() {
                                assert(v.dv()->Obj_0.len() == 2);
                                assert(v.dv()->Obj_0[0].0 == "denom"@);
                                assert(v.dv()->Obj_0[1].0 == "exchange_rate"@);
                            }
                        }
                    }
                    None
                }
            },
            _ => None,
        }
    }
}
/// A standing aggregate exchange-rate vote.
#[derive(Clone, Debug, PartialEq, Eq)]
pub struct AggregateExchangeRateVote {
    pub exchange_rate_tuples: Vec<ExchangeRateTuple>,
    pub voter: String,
}
impl WireRecord for AggregateExchangeRateVote {
    open spec fn jval(self) -> JsonSpec {
        JsonSpec::Obj(
            seq![
                ("exchange_rate_tuples"@, self.exchange_rate_tuples.jval()),
                ("voter"@, self.voter.jval()),
            ],
        )
    }

    proof fn jval_wf(self) {
        self.exchange_rate_tuples.jval_wf();
        self.voter.jval_wf();
        assert forall|k: int| 0 <= k < self.jval()->Obj_0.len() implies json_wf(
            #[trigger] self.jval()->Obj_0[k].1,
        ) by {
            if k == 0 {
                assert(json_wf(self.jval()->Obj_0[0].1));
            }
            if k == 1 {
                assert(json_wf(self.jval()->Obj_0[1].1));
            }
        }
    }

    fn build_jval(&self) -> (r: JsonVal) {
        let mut entries: Vec<JsonEntry> = Vec::new();
        entries.push(JsonEntry { key: String::from_str("exchange_rate_tuples"), val: self.exchange_rate_tuples.build_jval() });
        entries.push(JsonEntry { key: String::from_str("voter"), val: self.voter.build_jval() });
        let ghost ges = entries@;
        let r = JsonVal::Obj(entries);
        proof {
            let dvs = r.dv()->Obj_0;
            assert(dvs.len() == 2);
            assert(dvs[0] == (ges[0].key@, ges[0].val.dv()));
            assert(dvs[1] == (ges[1].key@, ges[1].val.dv()));
            assert(r.dv()->Obj_0 =~~= self.jval()->Obj_0);
            assert(r.dv() =~~= self.jval());
            assert(ges[0].val.wf());
            assert(ges[1].val.wf());
        }
        r
    }

    fn from_jval(v: &JsonVal) -> (r: Option<AggregateExchangeRateVote>) {
        match v {
            JsonVal::Obj(entries) => {
                let shape = entries.len() == 2 && str_eq(entries[0].key.as_str(), "exchange_rate_tuples") && str_eq(entries[1].key.as_str(), "voter");
                proof {
                    let dvs = v.dv()->Obj_0;
                    assert(dvs.len() == entries@.len());
                    if entries@.len() == 2 {
                        assert(dvs[0] == (entries@[0].key@, entries@[0].val.dv()));
                        assert(dvs[1] == (entries@[1].key@, entries@[1].val.dv()));
                    }
                }
                if shape {
                    let g0: Option<Vec<ExchangeRateTuple>> = WireRecord::from_jval(&entries[0].val);
                    let g1: Option<String> = WireRecord::from_jval(&entries[1].val);
                    match (g0, g1) {
                        (Some(h0), Some(h1)) => {
                            let x = AggregateExchangeRateVote { exchange_rate_tuples: h0, voter: h1 };
                            proof {
                                assert(x.jval()->Obj_0 =~~= v.dv()->Obj_0);
                                assert(x.jval() =~~= v.dv());
                            }
                            Some(x)
                        },
                        _ => {
                            proof {
                                assert forall|x: AggregateExchangeRateVote| v.dv() != #[trigger] x.jval() by {
                                    if v.dv() == x.jval() {
                                        assert(v.dv()->Obj_0[0].1 == x.exchange_rate_tuples.jval());
                                        assert(v.dv()->Obj_0[1].1 == x.voter.jval());
                                    }
                                }
                            }
                            None
                        },
                    }
                } else {
                    proof {
                        assert forall|x: AggregateExchangeRateVote| v.dv() != #[trigger] x.jval() by {
                            if v.dv() == x.jval() {
                                assert(v.dv()->Obj_0.len() == 2);
                                assert(v.dv()->Obj_0[0].0 == "exchange_rate_tuples"@);
                                assert(v.dv()->Obj_0[1].0 == "voter"@);
                            }
                        }
                    }
                    None
                }
            },
            _ => None,
        }
    }
}
} // verus!
