//! The oracle module group's standing prevote record.
use vstd::prelude::*;

use crate::record::WireRecord;
use crate::wire::{json_wf, str_eq, JsonEntry, JsonSpec, JsonVal};

verus! {

broadcast use vstd::string::group_string_axioms;

/// A standing aggregate exchange-rate prevote: the hash that hides a vote until it is revealed.
#[derive(Clone, Debug, PartialEq, Eq)]
pub struct AggregateExchangeRatePrevote {
    pub hash: String,
    pub voter: String,
    pub submit_block: u64,
}
impl WireRecord for AggregateExchangeRatePrevote {
    open spec fn jval(self) -> JsonSpec {
        JsonSpec::Obj(
            seq![
                ("hash"@, self.hash.jval()),
                ("voter"@, self.voter.jval()),
                ("submit_block"@, self.submit_block.jval()),
            ],
        )
    }

    proof fn jval_wf(self) {
        self.hash.jval_wf();
        self.voter.jval_wf();
        self.submit_block.jval_wf();
        assert forall|k: int| 0 <= k < self.jval()->Obj_0.len() implies json_wf(
            #[trigger] self.jval()->Obj_0[k].1,
        ) by {
            if k == 0 {
                assert(json_wf(self.jval()->Obj_0[0].1));
            }
            if k == 1 {
                assert(json_wf(self.jval()->Obj_0[1].1));
            }
            if k == 2 {
                assert(json_wf(self.jval()->Obj_0[2].1));
            }
        }
    }

    fn build_jval(&self) -> (r: JsonVal) {
        let mut entries: Vec<JsonEntry> = Vec::new();
        entries.push(JsonEntry { key: String::from_str("hash"), val: self.hash.build_jval() });
        entries.push(JsonEntry { key: String::from_str("voter"), val: self.voter.build_jval() });
        entries.push(JsonEntry { key: String::from_str("submit_block"), val: self.submit_block.build_jval() });
        let ghost ges = entries@;
        let r = JsonVal::Obj(entries);
        proof {
            let dvs = r.dv()->Obj_0;
            assert(dvs.len() == 3);
            assert(dvs[0] == (ges[0].key@, ges[0].val.dv()));
            assert(dvs[1] == (ges[1].key@, ges[1].val.dv()));
            assert(dvs[2] == (ges[2].key@, ges[2].val.dv()));
            assert(r.dv()->Obj_0 =~~= self.jval()->Obj_0);
            assert(r.dv() =~~= self.jval());
            assert(ges[0].val.wf());
            assert(ges[1].val.wf());
            assert(ges[2].val.wf());
        }
        r
    }

    fn from_jval(v: &JsonVal) -> (r: Option<AggregateExchangeRatePrevote>) {
        match v {
            JsonVal::Obj(entries) => {
                let shape = entries.len() == 3 && str_eq(entries[0].key.as_str(), "hash") && str_eq(entries[1].key.as_str(), "voter") && str_eq(entries[2].key.as_str(), "submit_block");
                proof {
                    let dvs = v.dv()->Obj_0;
                    assert(dvs.len() == entries@.len());
                    if entries@.len() == 3 {
                        assert(dvs[0] == (entries@[0].key@, entries@[0].val.dv()));
                        assert(dvs[1] == (entries@[1].key@, entries@[1].val.dv()));
                        assert(dvs[2] == (entries@[2].key@, entries@[2].val.dv()));
                    }
                }
                if shape {
                    let g0: Option<String> = WireRecord::from_jval(&entries[0].val);
                    let g1: Option<String> = WireRecord::from_jval(&entries[1].val);
                    let g2: Option<u64> = WireRecord::from_jval(&entries[2].val);
                    match (g0, g1, g2) {
                        (Some(h0), Some(h1), Some(h2)) => {
                            let x = AggregateExchangeRatePrevote { hash: h0, voter: h1, submit_block: h2 };
                            proof {
                                assert(x.jval()->Obj_0 =~~= v.dv()->Obj_0);
                                assert(x.jval() =~~= v.dv());
                            }
                            Some(x)
                        },
                        _ => {
                            proof {
                                assert forall|x: AggregateExchangeRatePrevote| v.dv() != #[trigger] x.jval() by {
                                    if v.dv() == x.jval() {
                                        assert(v.dv()->Obj_0[0].1 == x.hash.jval());
                                        assert(v.dv()->Obj_0[1].1 == x.voter.jval());
                                        assert(v.dv()->Obj_0[2].1 == x.submit_block.jval());
                                    }
                                }
                            }
                            None
                        },
                    }
                } else {
                    proof {
                        assert forall|x: AggregateExchangeRatePrevote| v.dv() != #[trigger] x.jval() by {
                            if v.dv() == x.jval() {
                                assert(v.dv()->Obj_0.len() == 3);
                                assert(v.dv()->Obj_0[0].0 == "hash"@);
                                assert(v.dv()->Obj_0[1].0 == "voter"@);
                                assert(v.dv()->Obj_0[2].0 == "submit_block"@);
                            }
                        }
                    }
                    None
                }
            },
            _ => None,
        }
    }
}
} // verus!
