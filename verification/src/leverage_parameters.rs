//! Parameters of the leverage module group.
use vstd::prelude::*;

use crate::base::Decimal256;
use crate::record::WireRecord;
use crate::wire::{json_wf, str_eq, JsonEntry, JsonSpec, JsonVal};

verus! {

broadcast use vstd::string::group_string_axioms;

/// Governance parameters of the leverage module group.
#[derive(Clone, Debug, PartialEq, Eq)]
pub struct LeverageParameters {
    pub complete_liquidation_threshold: Decimal256,
    pub minimum_close_factor: Decimal256,
    pub oracle_reward_factor: Decimal256,
    pub small_liquidation_size: Decimal256,
    pub direct_liquidation_fee: Decimal256,
}
impl WireRecord for LeverageParameters {
    open spec fn jval(self) -> JsonSpec {
        JsonSpec::Obj(
            seq![
                ("complete_liquidation_threshold"@, self.complete_liquidation_threshold.jval()),
                ("minimum_close_factor"@, self.minimum_close_factor.jval()),
                ("oracle_reward_factor"@, self.oracle_reward_factor.jval()),
                ("small_liquidation_size"@, self.small_liquidation_size.jval()),
                ("direct_liquidation_fee"@, self.direct_liquidation_fee.jval()),
            ],
        )
    }

    proof fn jval_wf(self) {
        self.complete_liquidation_threshold.jval_wf();
        self.minimum_close_factor.jval_wf();
        self.oracle_reward_factor.jval_wf();
        self.small_liquidation_size.jval_wf();
        self.direct_liquidation_fee.jval_wf();
        assert forall|k: int| 0 <= k < self.jval()->Obj_0.len() implies json_wf(
            #[trigger] self.jval()->Obj_0[k].1,
        ) by {
            if k == 0 {
                assert(json_wf(self.jval()->Obj_0[0].1));
            }
            if k == 1 {
                assert(json_wf(self.jval()->Obj_0[1].1));
            }
            if k == 2 {
                assert(json_wf(self.jval()->Obj_0[2].1));
            }
            if k == 3 {
                assert(json_wf(self.jval()->Obj_0[3].1));
            }
            if k == 4 {
                assert(json_wf(self.jval()->Obj_0[4].1));
            }
        }
    }

    fn build_jval(&self) -> (r: JsonVal) {
        let mut entries: Vec<JsonEntry> = Vec::new();
        entries.push(JsonEntry { key: String::from_str("complete_liquidation_threshold"), val: self.complete_liquidation_threshold.build_jval() });
        entries.push(JsonEntry { key: String::from_str("minimum_close_factor"), val: self.minimum_close_factor.build_jval() });
        entries.push(JsonEntry { key: String::from_str("oracle_reward_factor"), val: self.oracle_reward_factor.build_jval() });
        entries.push(JsonEntry { key: String::from_str("small_liquidation_size"), val: self.small_liquidation_size.build_jval() });
        entries.push(JsonEntry { key: String::from_str("direct_liquidation_fee"), val: self.direct_liquidation_fee.build_jval() });
        let ghost ges = entries@;
        let r = JsonVal::Obj(entries);
        proof {
            let dvs = r.dv()->Obj_0;
            assert(dvs.len() == 5);
            assert(dvs[0] == (ges[0].key@, ges[0].val.dv()));
            assert(dvs[1] == (ges[1].key@, ges[1].val.dv()));
            assert(dvs[2] == (ges[2].key@, ges[2].val.dv()));
            assert(dvs[3] == (ges[3].key@, ges[3].val.dv()));
            assert(dvs[4] == (ges[4].key@, ges[4].val.dv()));
            assert(r.dv()->Obj_0 =~~= self.jval()->Obj_0);
            assert(r.dv() =~~= self.jval());
            assert(ges[0].val.wf());
            assert(ges[1].val.wf());
            assert(ges[2].val.wf());
            assert(ges[3].val.wf());
            assert(ges[4].val.wf());
        }
        r
    }

    fn from_jval(v: &JsonVal) -> (r: Option<LeverageParameters>) {
        match v {
            JsonVal::Obj(entries) => {
                let shape = entries.len() == 5 && str_eq(entries[0].key.as_str(), "complete_liquidation_threshold") && str_eq(entries[1].key.as_str(), "minimum_close_factor") && str_eq(entries[2].key.as_str(), "oracle_reward_factor") && str_eq(entries[3].key.as_str(), "small_liquidation_size") && str_eq(entries[4].key.as_str(), "direct_liquidation_fee");
                proof {
                    let dvs = v.dv()->Obj_0;
                    assert(dvs.len() == entries@.len());
                    if entries@.len() == 5 {
                        assert(dvs[0] == (entries@[0].key@, entries@[0].val.dv()));
                        assert(dvs[1] == (entries@[1].key@, entries@[1].val.dv()));
                        assert(dvs[2] == (entries@[2].key@, entries@[2].val.dv()));
                        assert(dvs[3] == (entries@[3].key@, entries@[3].val.dv()));
                        assert(dvs[4] == (entries@[4].key@, entries@[4].val.dv()));
                    }
                }
                if shape {
                    let g0: Option<Decimal256> = WireRecord::from_jval(&entries[0].val);
                    let g1: Option<Decimal256> = WireRecord::from_jval(&entries[1].val);
                    let g2: Option<Decimal256> = WireRecord::from_jval(&entries[2].val);
                    let g3: Option<Decimal256> = WireRecord::from_jval(&entries[3].val);
                    let g4: Option<Decimal256> = WireRecord::from_jval(&entries[4].val);
                    match (g0, g1, g2, g3, g4) {
                        (Some(h0), Some(h1), Some(h2), Some(h3), Some(h4)) => {
                            let x = LeverageParameters { complete_liquidation_threshold: h0, minimum_close_factor: h1, oracle_reward_factor: h2, small_liquidation_size: h3, direct_liquidation_fee: h4 };
                            proof {
                                assert(x.jval()->Obj_0 =~~= v.dv()->Obj_0);
                                assert(x.jval() =~~= v.dv());
                            }
                            Some(x)
                        },
                        _ => {
                            proof {
                                assert forall|x: LeverageParameters| v.dv() != #[trigger] x.jval() by {
                                    if v.dv() == x.jval() {
                                        assert(v.dv()->Obj_0[0].1 == x.complete_liquidation_threshold.jval());
                                        assert(v.dv()->Obj_0[1].1 == x.minimum_close_factor.jval());
                                        assert(v.dv()->Obj_0[2].1 == x.oracle_reward_factor.jval());
                                        assert(v.dv()->Obj_0[3].1 == x.small_liquidation_size.jval());
                                        assert(v.dv()->Obj_0[4].1 == x.direct_liquidation_fee.jval());
                                    }
                                }
                            }
                            None
                        },
                    }
                } else {
                    proof {
                        assert forall|x: LeverageParameters| v.dv() != #[trigger] x.jval() by {
                            if v.dv() == x.jval() {
                                assert(v.dv()->Obj_0.len() == 5);
                                assert(v.dv()->Obj_0[0].0 == "complete_liquidation_threshold"@);
                                assert(v.dv()->Obj_0[1].0 == "minimum_close_factor"@);
                                assert(v.dv()->Obj_0[2].0 == "oracle_reward_factor"@);
                                assert(v.dv()->Obj_0[3].0 == "small_liquidation_size"@);
                                assert(v.dv()->Obj_0[4].0 == "direct_liquidation_fee"@);
                            }
                        }
                    }
                    None
                }
            },
            _ => None,
        }
    }
}
} // verus!
