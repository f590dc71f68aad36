//! Bad-debt positions of the leverage module group.
use vstd::prelude::*;

use crate::record::WireRecord;
use crate::wire::{json_wf, str_eq, JsonEntry, JsonSpec, JsonVal};

verus! {

broadcast use vstd::string::group_string_axioms;

/// A borrow position marked for bad-debt repayment.
#[derive(Clone, Debug, PartialEq, Eq)]
pub struct BadDebt {
    pub address: String,
    pub denom: String,
}
impl WireRecord for BadDebt {
    open spec fn jval(self) -> JsonSpec {
        JsonSpec::Obj(
            seq![
                ("address"@, self.address.jval()),
                ("denom"@, self.denom.jval()),
            ],
        )
    }

    proof fn jval_wf(self) {
        self.address.jval_wf();
        self.denom.jval_wf();
        assert forall|k: int| 0 <= k < self.jval()->Obj_0.len() implies json_wf(
            #[trigger] self.jval()->Obj_0[k].1,
        ) by {
            if k == 0 {
                assert(json_wf(self.jval()->Obj_0[0].1));
            }
            if k == 1 {
                assert(json_wf(self.jval()->Obj_0[1].1));
            }
        }
    }

    fn build_jval(&self) -> (r: JsonVal) {
        let mut entries: Vec<JsonEntry> = Vec::new();
        entries.push(JsonEntry { key: String::from_str("address"), val: self.address.build_jval() });
        entries.push(JsonEntry { key: String::from_str("denom"), val: self.denom.build_jval() });
        let ghost ges = entries@;
        let r = JsonVal::Obj(entries);
        proof {
            let dvs = r.dv()->Obj_0;
            assert(dvs.len() == 2);
            assert(dvs[0] == (ges[0].key@, ges[0].val.dv()));
            assert(dvs[1] == (ges[1].key@, ges[1].val.dv()));
            assert(r.dv()->Obj_0 =~~= self.jval()->Obj_0);
            assert(r.dv() =~~= self.jval());
            assert(ges[0].val.wf());
            assert(ges[1].val.wf());
        }
        r
    }

    fn from_jval(v: &JsonVal) -> (r: Option<BadDebt>) {
        match v {
            JsonVal::Obj(entries) => {
                let shape = entries.len() == 2 && str_eq(entries[0].key.as_str(), "address") && str_eq(entries[1].key.as_str(), "denom");
                proof {
                    let dvs = v.dv()->Obj_0;
                    assert(dvs.len() == entries@.len());
                    if entries@.len() == 2 {
                        assert(dvs[0] == (entries@[0].key@, entries@[0].val.dv()));
                        assert(dvs[1] == (entries@[1].key@, entries@[1].val.dv()));
                    }
                }
                if shape {
                    let g0: Option<String> = WireRecord::from_jval(&entries[0].val);
                    let g1: Option<String> = WireRecord::from_jval(&entries[1].val);
                    match (g0, g1) {
                        (Some(h0), Some(h1)) => {
                            let x = BadDebt { address: h0, denom: h1 };
                            proof {
                                assert(x.jval()->Obj_0 =~~= v.dv()->Obj_0);
                                assert(x.jval() =~~= v.dv());
                            }
                            Some(x)
                        },
                        _ => {
                            proof {
                                assert forall|x: BadDebt| v.dv() != #[trigger] x.jval() by {
                                    if v.dv() == x.jval() {
                                        assert(v.dv()->Obj_0[0].1 == x.address.jval());
                                        assert(v.dv()->Obj_0[1].1 == x.denom.jval());
                                    }
                                }
                            }
                            None
                        },
                    }
                } else {
                    proof {
                        assert forall|x: BadDebt| v.dv() != #[trigger] x.jval() by {
                            if v.dv() == x.jval() {
                                assert(v.dv()->Obj_0.len() == 2);
                                assert(v.dv()->Obj_0[0].0 == "address"@);
                                assert(v.dv()->Obj_0[1].0 == "denom"@);
                            }
                        }
                    }
                    None
                }
            },
            _ => None,
        }
    }
}
} // verus!
