//! Parameters of the oracle module group.
use vstd::prelude::*;

use crate::base::Decimal256;
use crate::record::WireRecord;
use crate::wire::{json_wf, str_eq, JsonEntry, JsonSpec, JsonVal};

verus! {

broadcast use vstd::string::group_string_axioms;

/// Configuration of one denomination the oracle accepts.
#[derive(Clone, Debug, PartialEq, Eq)]
pub struct Denom {
    pub base_denom: String,
    pub symbol_denom: String,
    pub exponent: u32,
}
impl WireRecord for Denom {
    open spec fn jval(self) -> JsonSpec {
        JsonSpec::Obj(
            seq![
                ("base_denom"@, self.base_denom.jval()),
                ("symbol_denom"@, self.symbol_denom.jval()),
                ("exponent"@, self.exponent.jval()),
            ],
        )
    }

    proof fn jval_wf(self) {
        self.base_denom.jval_wf();
        self.symbol_denom.jval_wf();
        self.exponent.jval_wf();
        assert forall|k: int| 0 <= k < self.jval()->Obj_0.len() implies json_wf(
            #[trigger] self.jval()->Obj_0[k].1,
        ) by {
            if k == 0 {
                assert(json_wf(self.jval()->Obj_0[0].1));
            }
            if k == 1 {
                assert(json_wf(self.jval()->Obj_0[1].1));
            }
            if k == 2 {
                assert(json_wf(self.jval()->Obj_0[2].1));
            }
        }
    }

    fn build_jval(&self) -> (r: JsonVal) {
        let mut entries: Vec<JsonEntry> = Vec::new();
        entries.push(JsonEntry { key: String::from_str("base_denom"), val: self.base_denom.build_jval() });
        entries.push(JsonEntry { key: String::from_str("symbol_denom"), val: self.symbol_denom.build_jval() });
        entries.push(JsonEntry { key: String::from_str("exponent"), val: self.exponent.build_jval() });
        let ghost ges = entries@;
        let r = JsonVal::Obj(entries);
        proof {
            let dvs = r.dv()->Obj_0;
            assert(dvs.len() == 3);
            assert(dvs[0] == (ges[0].key@, ges[0].val.dv()));
            assert(dvs[1] == (ges[1].key@, ges[1].val.dv()));
            assert(dvs[2] == (ges[2].key@, ges[2].val.dv()));
            assert(r.dv()->Obj_0 =~~= self.jval()->Obj_0);
            assert(r.dv() =~~= self.jval());
            assert(ges[0].val.wf());
            assert(ges[1].val.wf());
            assert(ges[2].val.wf());
        }
        r
    }

    fn from_jval(v: &JsonVal) -> (r: Option<Denom>) {
        match v {
            JsonVal::Obj(entries) => {
                let shape = entries.len() == 3 && str_eq(entries[0].key.as_str(), "base_denom") && str_eq(entries[1].key.as_str(), "symbol_denom") && str_eq(entries[2].key.as_str(), "exponent");
                proof {
                    let dvs = v.dv()->Obj_0;
                    assert(dvs.len() == entries@.len());
                    if entries@.len() == 3 {
                        assert(dvs[0] == (entries@[0].key@, entries@[0].val.dv()));
                        assert(dvs[1] == (entries@[1].key@, entries@[1].val.dv()));
                        assert(dvs[2] == (entries@[2].key@, entries@[2].val.dv()));
                    }
                }
                if shape {
                    let g0: Option<String> = WireRecord::from_jval(&entries[0].val);
                    let g1: Option<String> = WireRecord::from_jval(&entries[1].val);
                    let g2: Option<u32> = WireRecord::from_jval(&entries[2].val);
                    match (g0, g1, g2) {
                        (Some(h0), Some(h1), Some(h2)) => {
                            let x = Denom { base_denom: h0, symbol_denom: h1, exponent: h2 };
                            proof {
                                assert(x.jval()->Obj_0 =~~= v.dv()->Obj_0);
                                assert(x.jval() =~~= v.dv());
                            }
                            Some(x)
                        },
                        _ => {
                            proof {
                                assert forall|x: Denom| v.dv() != #[trigger] x.jval() by {
                                    if v.dv() == x.jval() {
                                        assert(v.dv()->Obj_0[0].1 == x.base_denom.jval());
                                        assert(v.dv()->Obj_0[1].1 == x.symbol_denom.jval());
                                        assert(v.dv()->Obj_0[2].1 == x.exponent.jval());
                                    }
                                }
                            }
                            None
                        },
                    }
                } else {
                    proof {
                        assert forall|x: Denom| v.dv() != #[trigger] x.jval() by {
                            if v.dv() == x.jval() {
                                assert(v.dv()->Obj_0.len() == 3);
                                assert(v.dv()->Obj_0[0].0 == "base_denom"@);
                                assert(v.dv()->Obj_0[1].0 == "symbol_denom"@);
                                assert(v.dv()->Obj_0[2].0 == "exponent"@);
                            }
                        }
                    }
                    None
                }
            },
            _ => None,
        }
    }
}
/// Governance parameters of the oracle module group.
#[derive(Clone, Debug, PartialEq, Eq)]
pub struct OracleParameters {
    pub vote_period: u64,
    pub vote_threshold: Decimal256,
    pub reward_band: Decimal256,
    pub reward_distribution_window: u64,
    pub accept_list: Vec<Denom>,
    pub slash_fraction: Decimal256,
    pub slash_window: u64,
    pub min_valid_per_window: Decimal256,
    pub stamp_period: u64,
    pub prune_period: u64,
    pub median_period: u64,
    pub historic_accept_list: Vec<Denom>,
}
impl WireRecord for OracleParameters {
    open spec fn jval(self) -> JsonSpec {
        JsonSpec::Obj(
            seq![
                ("vote_period"@, self.vote_period.jval()),
                ("vote_threshold"@, self.vote_threshold.jval()),
                ("reward_band"@, self.reward_band.jval()),
                ("reward_distribution_window"@, self.reward_distribution_window.jval()),
                ("accept_list"@, self.accept_list.jval()),
                ("slash_fraction"@, self.slash_fraction.jval()),
                ("slash_window"@, self.slash_window.jval()),
                ("min_valid_per_window"@, self.min_valid_per_window.jval()),
                ("stamp_period"@, self.stamp_period.jval()),
                ("prune_period"@, self.prune_period.jval()),
                ("median_period"@, self.median_period.jval()),
                ("historic_accept_list"@, self.historic_accept_list.jval()),
            ],
        )
    }

    proof fn jval_wf(self) {
        self.vote_period.jval_wf();
        self.vote_threshold.jval_wf();
        self.reward_band.jval_wf();
        self.reward_distribution_window.jval_wf();
        self.accept_list.jval_wf();
        self.slash_fraction.jval_wf();
        self.slash_window.jval_wf();
        self.min_valid_per_window.jval_wf();
        self.stamp_period.jval_wf();
        self.prune_period.jval_wf();
        self.median_period.jval_wf();
        self.historic_accept_list.jval_wf();
        assert forall|k: int| 0 <= k < self.jval()->Obj_0.len() implies json_wf(
            #[trigger] self.jval()->Obj_0[k].1,
        ) by {
            if k == 0 {
                assert(json_wf(self.jval()->Obj_0[0].1));
            }
            if k == 1 {
                assert(json_wf(self.jval()->Obj_0[1].1));
            }
            if k == 2 {
                assert(json_wf(self.jval()->Obj_0[2].1));
            }
            if k == 3 {
                assert(json_wf(self.jval()->Obj_0[3].1));
            }
            if k == 4 {
                assert(json_wf(self.jval()->Obj_0[4].1));
            }
            if k == 5 {
                assert(json_wf(self.jval()->Obj_0[5].1));
            }
            if k == 6 {
                assert(json_wf(self.jval()->Obj_0[6].1));
            }
            if k == 7 {
                assert(json_wf(self.jval()->Obj_0[7].1));
            }
            if k == 8 {
                assert(json_wf(self.jval()->Obj_0[8].1));
            }
            if k == 9 {
                assert(json_wf(self.jval()->Obj_0[9].1));
            }
            if k == 10 {
                assert(json_wf(self.jval()->Obj_0[10].1));
            }
            if k == 11 {
                assert(json_wf(self.jval()->Obj_0[11].1));
            }
        }
    }

    fn build_jval(&self) -> (r: JsonVal) {
        let mut entries: Vec<JsonEntry> = Vec::new();
        entries.push(JsonEntry { key: String::from_str("vote_period"), val: self.vote_period.build_jval() });
        entries.push(JsonEntry { key: String::from_str("vote_threshold"), val: self.vote_threshold.build_jval() });
        entries.push(JsonEntry { key: String::from_str("reward_band"), val: self.reward_band.build_jval() });
        entries.push(JsonEntry { key: String::from_str("reward_distribution_window"), val: self.reward_distribution_window.build_jval() });
        entries.push(JsonEntry { key: String::from_str("accept_list"), val: self.accept_list.build_jval() });
        entries.push(JsonEntry { key: String::from_str("slash_fraction"), val: self.slash_fraction.build_jval() });
        entries.push(JsonEntry { key: String::from_str("slash_window"), val: self.slash_window.build_jval() });
        entries.push(JsonEntry { key: String::from_str("min_valid_per_window"), val: self.min_valid_per_window.build_jval() });
        entries.push(JsonEntry { key: String::from_str("stamp_period"), val: self.stamp_period.build_jval() });
        entries.push(JsonEntry { key: String::from_str("prune_period"), val: self.prune_period.build_jval() });
        entries.push(JsonEntry { key: String::from_str("median_period"), val: self.median_period.build_jval() });
        entries.push(JsonEntry { key: String::from_str("historic_accept_list"), val: self.historic_accept_list.build_jval() });
        let ghost ges = entries@;
        let r = JsonVal::Obj(entries);
        proof {
            let dvs = r.dv()->Obj_0;
            assert(dvs.len() == 12);
            assert(dvs[0] == (ges[0].key@, ges[0].val.dv()));
            assert(dvs[1] == (ges[1].key@, ges[1].val.dv()));
            assert(dvs[2] == (ges[2].key@, ges[2].val.dv()));
            assert(dvs[3] == (ges[3].key@, ges[3].val.dv()));
            assert(dvs[4] == (ges[4].key@, ges[4].val.dv()));
            assert(dvs[5] == (ges[5].key@, ges[5].val.dv()));
            assert(dvs[6] == (ges[6].key@, ges[6].val.dv()));
            assert(dvs[7] == (ges[7].key@, ges[7].val.dv()));
            assert(dvs[8] == (ges[8].key@, ges[8].val.dv()));
            assert(dvs[9] == (ges[9].key@, ges[9].val.dv()));
            assert(dvs[10] == (ges[10].key@, ges[10].val.dv()));
            assert(dvs[11] == (ges[11].key@, ges[11].val.dv()));
            assert(r.dv()->Obj_0 =~~= self.jval()->Obj_0);
            assert(r.dv() =~~= self.jval());
            assert(ges[0].val.wf());
            assert(ges[1].val.wf());
            assert(ges[2].val.wf());
            assert(ges[3].val.wf());
            assert(ges[4].val.wf());
            assert(ges[5].val.wf());
            assert(ges[6].val.wf());
            assert(ges[7].val.wf());
            assert(ges[8].val.wf());
            assert(ges[9].val.wf());
            assert(ges[10].val.wf());
            assert(ges[11].val.wf());
        }
        r
    }

    fn from_jval(v: &JsonVal) -> (r: Option<OracleParameters>) {
        match v {
            JsonVal::Obj(entries) => {
                let shape = entries.len() == 12 && str_eq(entries[0].key.as_str(), "vote_period") && str_eq(entries[1].key.as_str(), "vote_threshold") && str_eq(entries[2].key.as_str(), "reward_band") && str_eq(entries[3].key.as_str(), "reward_distribution_window") && str_eq(entries[4].key.as_str(), "accept_list") && str_eq(entries[5].key.as_str(), "slash_fraction") && str_eq(entries[6].key.as_str(), "slash_window") && str_eq(entries[7].key.as_str(), "min_valid_per_window") && str_eq(entries[8].key.as_str(), "stamp_period") && str_eq(entries[9].key.as_str(), "prune_period") && str_eq(entries[10].key.as_str(), "median_period") && str_eq(entries[11].key.as_str(), "historic_accept_list");
                proof {
                    let dvs = v.dv()->Obj_0;
                    assert(dvs.len() == entries@.len());
                    if entries@.len() == 12 {
                        assert(dvs[0] == (entries@[0].key@, entries@[0].val.dv()));
                        assert(dvs[1] == (entries@[1].key@, entries@[1].val.dv()));
                        assert(dvs[2] == (entries@[2].key@, entries@[2].val.dv()));
                        assert(dvs[3] == (entries@[3].key@, entries@[3].val.dv()));
                        assert(dvs[4] == (entries@[4].key@, entries@[4].val.dv()));
                        assert(dvs[5] == (entries@[5].key@, entries@[5].val.dv()));
                        assert(dvs[6] == (entries@[6].key@, entries@[6].val.dv()));
                        assert(dvs[7] == (entries@[7].key@, entries@[7].val.dv()));
                        assert(dvs[8] == (entries@[8].key@, entries@[8].val.dv()));
                        assert(dvs[9] == (entries@[9].key@, entries@[9].val.dv()));
                        assert(dvs[10] == (entries@[10].key@, entries@[10].val.dv()));
                        assert(dvs[11] == (entries@[11].key@, entries@[11].val.dv()));
                    }
                }
                if shape {
                    let g0: Option<u64> = WireRecord::from_jval(&entries[0].val);
                    let g1: Option<Decimal256> = WireRecord::from_jval(&entries[1].val);
                    let g2: Option<Decimal256> = WireRecord::from_jval(&entries[2].val);
                    let g3: Option<u64> = WireRecord::from_jval(&entries[3].val);
                    let g4: Option<Vec<Denom>> = WireRecord::from_jval(&entries[4].val);
                    let g5: Option<Decimal256> = WireRecord::from_jval(&entries[5].val);
                    let g6: Option<u64> = WireRecord::from_jval(&entries[6].val);
                    let g7: Option<Decimal256> = WireRecord::from_jval(&entries[7].val);
                    let g8: Option<u64> = WireRecord::from_jval(&entries[8].val);
                    let g9: Option<u64> = WireRecord::from_jval(&entries[9].val);
                    let g10: Option<u64> = WireRecord::from_jval(&entries[10].val);
                    let g11: Option<Vec<Denom>> = WireRecord::from_jval(&entries[11].val);
                    match (g0, g1, g2, g3, g4, g5, g6, g7, g8, g9, g10, g11) {
                        (Some(h0), Some(h1), Some(h2), Some(h3), Some(h4), Some(h5), Some(h6), Some(h7), Some(h8), Some(h9), Some(h10), Some(h11)) => {
                            let x = OracleParameters { vote_period: h0, vote_threshold: h1, reward_band: h2, reward_distribution_window: h3, accept_list: h4, slash_fraction: h5, slash_window: h6, min_valid_per_window: h7, stamp_period: h8, prune_period: h9, median_period: h10, historic_accept_list: h11 };
                            proof {
                                assert(x.jval()->Obj_0 =~~= v.dv()->Obj_0);
                                assert(x.jval() =~~= v.dv());
                            }
                            Some(x)
                        },
                        _ => {
                            proof {
                                assert forall|x: OracleParameters| v.dv() != #[trigger] x.jval() by {
                                    if v.dv() == x.jval() {
                                        assert(v.dv()->Obj_0[0].1 == x.vote_period.jval());
                                        assert(v.dv()->Obj_0[1].1 == x.vote_threshold.jval());
                                        assert(v.dv()->Obj_0[2].1 == x.reward_band.jval());
                                        assert(v.dv()->Obj_0[3].1 == x.reward_distribution_window.jval());
                                        assert(v.dv()->Obj_0[4].1 == x.accept_list.jval());
                                        assert(v.dv()->Obj_0[5].1 == x.slash_fraction.jval());
                                        assert(v.dv()->Obj_0[6].1 == x.slash_window.jval());
                                        assert(v.dv()->Obj_0[7].1 == x.min_valid_per_window.jval());
                                        assert(v.dv()->Obj_0[8].1 == x.stamp_period.jval());
                                        assert(v.dv()->Obj_0[9].1 == x.prune_period.jval());
                                        assert(v.dv()->Obj_0[10].1 == x.median_period.jval());
                                        assert(v.dv()->Obj_0[11].1 == x.historic_accept_list.jval());
                                    }
                                }
                            }
                            None
                        },
                    }
                } else {
                    proof {
                        assert forall|x: OracleParameters| v.dv() != #[trigger] x.jval() by {
                            if v.dv() == x.jval() {
                                assert(v.dv()->Obj_0.len() == 12);
                                assert(v.dv()->Obj_0[0].0 == "vote_period"@);
                                assert(v.dv()->Obj_0[1].0 == "vote_threshold"@);
                                assert(v.dv()->Obj_0[2].0 == "reward_band"@);
                                assert(v.dv()->Obj_0[3].0 == "reward_distribution_window"@);
                                assert(v.dv()->Obj_0[4].0 == "accept_list"@);
                                assert(v.dv()->Obj_0[5].0 == "slash_fraction"@);
                                assert(v.dv()->Obj_0[6].0 == "slash_window"@);
                                assert(v.dv()->Obj_0[7].0 == "min_valid_per_window"@);
                                assert(v.dv()->Obj_0[8].0 == "stamp_period"@);
                                assert(v.dv()->Obj_0[9].0 == "prune_period"@);
                                assert(v.dv()->Obj_0[10].0 == "median_period"@);
                                assert(v.dv()->Obj_0[11].0 == "historic_accept_list"@);
                            }
                        }
                    }
                    None
                }
            },
            _ => None,
        }
    }
}
} // verus!
