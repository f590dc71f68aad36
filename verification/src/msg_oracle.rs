//! Messages of the oracle module group.
use vstd::prelude::*;

use crate::record::WireRecord;
use crate::wire::{json_wf, str_eq, JsonEntry, JsonSpec, JsonVal};

verus! {

broadcast use vstd::string::group_string_axioms;

/// The catalog of oracle message kinds, by canonical name.
#[derive(Clone, Debug, PartialEq, Eq)]
pub enum UmeeMsgOracleTypes {
    AssignedAggregateExchangeRatePrevote,
    AssignedAggregateExchangeRateVote,
    AssignedDelegateFeedConsent,
}

/// Submits a hashed prevote for an aggregate exchange rate vote.
#[derive(Clone, Debug, PartialEq, Eq)]
pub struct MsgAggregateExchangeRatePrevote {
    pub hash: String,
    pub feeder: String,
    pub validator: String,
}
impl WireRecord for MsgAggregateExchangeRatePrevote {
    open spec fn jval(self) -> JsonSpec {
        JsonSpec::Obj(
            seq![
                ("hash"@, self.hash.jval()),
                ("feeder"@, self.feeder.jval()),
                ("validator"@, self.validator.jval()),
            ],
        )
    }

    proof fn jval_wf(self) {
        self.hash.jval_wf();
        self.feeder.jval_wf();
        self.validator.jval_wf();
        assert forall|k: int| 0 <= k < self.jval()->Obj_0.len() implies json_wf(
            #[trigger] self.jval()->Obj_0[k].1,
        ) by {
            if k == 0 {
                assert(json_wf(self.jval()->Obj_0[0].1));
            }
            if k == 1 {
                assert(json_wf(self.jval()->Obj_0[1].1));
            }
            if k == 2 {
                assert(json_wf(self.jval()->Obj_0[2].1));
            }
        }
    }

    fn build_jval(&self) -> (r: JsonVal) {
        let mut entries: Vec<JsonEntry> = Vec::new();
        entries.push(JsonEntry { key: String::from_str("hash"), val: self.hash.build_jval() });
        entries.push(JsonEntry { key: String::from_str("feeder"), val: self.feeder.build_jval() });
        entries.push(JsonEntry { key: String::from_str("validator"), val: self.validator.build_jval() });
        let ghost ges = entries@;
        let r = JsonVal::Obj(entries);
        proof {
            let dvs = r.dv()->Obj_0;
            assert(dvs.len() == 3);
            assert(dvs[0] == (ges[0].key@, ges[0].val.dv()));
            assert(dvs[1] == (ges[1].key@, ges[1].val.dv()));
            assert(dvs[2] == (ges[2].key@, ges[2].val.dv()));
            assert(r.dv()->Obj_0 =~~= self.jval()->Obj_0);
            assert(r.dv() =~~= self.jval());
            assert(ges[0].val.wf());
            assert(ges[1].val.wf());
            assert(ges[2].val.wf());
        }
        r
    }

    fn from_jval(v: &JsonVal) -> (r: Option<MsgAggregateExchangeRatePrevote>) {
        match v {
            JsonVal::Obj(entries) => {
                let shape = entries.len() == 3 && str_eq(entries[0].key.as_str(), "hash") && str_eq(entries[1].key.as_str(), "feeder") && str_eq(entries[2].key.as_str(), "validator");
                proof {
                    let dvs = v.dv()->Obj_0;
                    assert(dvs.len() == entries@.len());
                    if entries@.len() == 3 {
                        assert(dvs[0] == (entries@[0].key@, entries@[0].val.dv()));
                        assert(dvs[1] == (entries@[1].key@, entries@[1].val.dv()));
                        assert(dvs[2] == (entries@[2].key@, entries@[2].val.dv()));
                    }
                }
                if shape {
                    let g0: Option<String> = WireRecord::from_jval(&entries[0].val);
                    let g1: Option<String> = WireRecord::from_jval(&entries[1].val);
                    let g2: Option<String> = WireRecord::from_jval(&entries[2].val);
                    match (g0, g1, g2) {
                        (Some(h0), Some(h1), Some(h2)) => {
                            let x = MsgAggregateExchangeRatePrevote { hash: h0, feeder: h1, validator: h2 };
                            proof {
                                assert(x.jval()->Obj_0 =~~= v.dv()->Obj_0);
                                assert(x.jval() =~~= v.dv());
                            }
                            Some(x)
                        },
                        _ => {
                            proof {
                                assert forall|x: MsgAggregateExchangeRatePrevote| v.dv() != #[trigger] x.jval() by {
                                    if v.dv() == x.jval() {
                                        assert(v.dv()->Obj_0[0].1 == x.hash.jval());
                                        assert(v.dv()->Obj_0[1].1 == x.feeder.jval());
                                        assert(v.dv()->Obj_0[2].1 == x.validator.jval());
                                    }
                                }
                            }
                            None
                        },
                    }
                } else {
                    proof {
                        assert forall|x: MsgAggregateExchangeRatePrevote| v.dv() != #[trigger] x.jval() by {
                            if v.dv() == x.jval() {
                                assert(v.dv()->Obj_0.len() == 3);
                                assert(v.dv()->Obj_0[0].0 == "hash"@);
                                assert(v.dv()->Obj_0[1].0 == "feeder"@);
                                assert(v.dv()->Obj_0[2].0 == "validator"@);
                            }
                        }
                    }
                    None
                }
            },
            _ => None,
        }
    }
}
/// Submits an aggregate exchange rate vote, revealing a prevote.
#[derive(Clone, Debug, PartialEq, Eq)]
pub struct MsgAggregateExchangeRateVote {
    pub salt: String,
    pub exchange_rates: String,
    pub feeder: String,
    pub validator: String,
}
impl WireRecord for MsgAggregateExchangeRateVote {
    open spec fn jval(self) -> JsonSpec {
        JsonSpec::Obj(
            seq![
                ("salt"@, self.salt.jval()),
                ("exchange_rates"@, self.exchange_rates.jval()),
                ("feeder"@, self.feeder.jval()),
                ("validator"@, self.validator.jval()),
            ],
        )
    }

    proof fn jval_wf(self) {
        self.salt.jval_wf();
        self.exchange_rates.jval_wf();
        self.feeder.jval_wf();
        self.validator.jval_wf();
        assert forall|k: int| 0 <= k < self.jval()->Obj_0.len() implies json_wf(
            #[trigger] self.jval()->Obj_0[k].1,
        ) by {
            if k == 0 {
                assert(json_wf(self.jval()->Obj_0[0].1));
            }
            if k == 1 {
                assert(json_wf(self.jval()->Obj_0[1].1));
            }
            if k == 2 {
                assert(json_wf(self.jval()->Obj_0[2].1));
            }
            if k == 3 {
                assert(json_wf(self.jval()->Obj_0[3].1));
            }
        }
    }

    fn build_jval(&self) -> (r: JsonVal) {
        let mut entries: Vec<JsonEntry> = Vec::new();
        entries.push(JsonEntry { key: String::from_str("salt"), val: self.salt.build_jval() });
        entries.push(JsonEntry { key: String::from_str("exchange_rates"), val: self.exchange_rates.build_jval() });
        entries.push(JsonEntry { key: String::from_str("feeder"), val: self.feeder.build_jval() });
        entries.push(JsonEntry { key: String::from_str("validator"), val: self.validator.build_jval() });
        let ghost ges = entries@;
        let r = JsonVal::Obj(entries);
        proof {
            let dvs = r.dv()->Obj_0;
            assert(dvs.len() == 4);
            assert(dvs[0] == (ges[0].key@, ges[0].val.dv()));
            assert(dvs[1] == (ges[1].key@, ges[1].val.dv()));
            assert(dvs[2] == (ges[2].key@, ges[2].val.dv()));
            assert(dvs[3] == (ges[3].key@, ges[3].val.dv()));
            assert(r.dv()->Obj_0 =~~= self.jval()->Obj_0);
            assert(r.dv() =~~= self.jval());
            assert(ges[0].val.wf());
            assert(ges[1].val.wf());
            assert(ges[2].val.wf());
            assert(ges[3].val.wf());
        }
        r
    }

    fn from_jval(v: &JsonVal) -> (r: Option<MsgAggregateExchangeRateVote>) {
        match v {
            JsonVal::Obj(entries) => {
                let shape = entries.len() == 4 && str_eq(entries[0].key.as_str(), "salt") && str_eq(entries[1].key.as_str(), "exchange_rates") && str_eq(entries[2].key.as_str(), "feeder") && str_eq(entries[3].key.as_str(), "validator");
                proof {
                    let dvs = v.dv()->Obj_0;
                    assert(dvs.len() == entries@.len());
                    if entries@.len() == 4 {
                        assert(dvs[0] == (entries@[0].key@, entries@[0].val.dv()));
                        assert(dvs[1] == (entries@[1].key@, entries@[1].val.dv()));
                        assert(dvs[2] == (entries@[2].key@, entries@[2].val.dv()));
                        assert(dvs[3] == (entries@[3].key@, entries@[3].val.dv()));
                    }
                }
                if shape {
                    let g0: Option<String> = WireRecord::from_jval(&entries[0].val);
                    let g1: Option<String> = WireRecord::from_jval(&entries[1].val);
                    let g2: Option<String> = WireRecord::from_jval(&entries[2].val);
                    let g3: Option<String> = WireRecord::from_jval(&entries[3].val);
                    match (g0, g1, g2, g3) {
                        (Some(h0), Some(h1), Some(h2), Some(h3)) => {
                            let x = MsgAggregateExchangeRateVote { salt: h0, exchange_rates: h1, feeder: h2, validator: h3 };
                            proof {
                                assert(x.jval()->Obj_0 =~~= v.dv()->Obj_0);
                                assert(x.jval() =~~= v.dv());
                            }
                            Some(x)
                        },
                        _ => {
                            proof {
                                assert forall|x: MsgAggregateExchangeRateVote| v.dv() != #[trigger] x.jval() by {
                                    if v.dv() == x.jval() {
                                        assert(v.dv()->Obj_0[0].1 == x.salt.jval());
                                        assert(v.dv()->Obj_0[1].1 == x.exchange_rates.jval());
                                        assert(v.dv()->Obj_0[2].1 == x.feeder.jval());
                                        assert(v.dv()->Obj_0[3].1 == x.validator.jval());
                                    }
                                }
                            }
                            None
                        },
                    }
                } else {
                    proof {
                        assert forall|x: MsgAggregateExchangeRateVote| v.dv() != #[trigger] x.jval() by {
                            if v.dv() == x.jval() {
                                assert(v.dv()->Obj_0.len() == 4);
                                assert(v.dv()->Obj_0[0].0 == "salt"@);
                                assert(v.dv()->Obj_0[1].0 == "exchange_rates"@);
                                assert(v.dv()->Obj_0[2].0 == "feeder"@);
                                assert(v.dv()->Obj_0[3].0 == "validator"@);
                            }
                        }
                    }
                    None
                }
            },
            _ => None,
        }
    }
}
/// Delegates oracle voting rights to another address.
#[derive(Clone, Debug, PartialEq, Eq)]
pub struct MsgDelegateFeedConsent {
    pub operator: String,
    pub delegate: String,
}
impl WireRecord for MsgDelegateFeedConsent {
    open spec fn jval(self) -> JsonSpec {
        JsonSpec::Obj(
            seq![
                ("operator"@, self.operator.jval()),
                ("delegate"@, self.delegate.jval()),
            ],
        )
    }

    proof fn jval_wf(self) {
        self.operator.jval_wf();
        self.delegate.jval_wf();
        assert forall|k: int| 0 <= k < self.jval()->Obj_0.len() implies json_wf(
            #[trigger] self.jval()->Obj_0[k].1,
        ) by {
            if k == 0 {
                assert(json_wf(self.jval()->Obj_0[0].1));
            }
            if k == 1 {
                assert(json_wf(self.jval()->Obj_0[1].1));
            }
        }
    }

    fn build_jval(&self) -> (r: JsonVal) {
        let mut entries: Vec<JsonEntry> = Vec::new();
        entries.push(JsonEntry { key: String::from_str("operator"), val: self.operator.build_jval() });
        entries.push(JsonEntry { key: String::from_str("delegate"), val: self.delegate.build_jval() });
        let ghost ges = entries@;
        let r = JsonVal::Obj(entries);
        proof {
            let dvs = r.dv()->Obj_0;
            assert(dvs.len() == 2);
            assert(dvs[0] == (ges[0].key@, ges[0].val.dv()));
            assert(dvs[1] == (ges[1].key@, ges[1].val.dv()));
            assert(r.dv()->Obj_0 =~~= self.jval()->Obj_0);
            assert(r.dv() =~~= self.jval());
            assert(ges[0].val.wf());
            assert(ges[1].val.wf());
        }
        r
    }

    fn from_jval(v: &JsonVal) -> (r: Option<MsgDelegateFeedConsent>) {
        match v {
            JsonVal::Obj(entries) => {
                let shape = entries.len() == 2 && str_eq(entries[0].key.as_str(), "operator") && str_eq(entries[1].key.as_str(), "delegate");
                proof {
                    let dvs = v.dv()->Obj_0;
                    assert(dvs.len() == entries@.len());
                    if entries@.len() == 2 {
                        assert(dvs[0] == (entries@[0].key@, entries@[0].val.dv()));
                        assert(dvs[1] == (entries@[1].key@, entries@[1].val.dv()));
                    }
                }
                if shape {
                    let g0: Option<String> = WireRecord::from_jval(&entries[0].val);
                    let g1: Option<String> = WireRecord::from_jval(&entries[1].val);
                    match (g0, g1) {
                        (Some(h0), Some(h1)) => {
                            let x = MsgDelegateFeedConsent { operator: h0, delegate: h1 };
                            proof {
                                assert(x.jval()->Obj_0 =~~= v.dv()->Obj_0);
                                assert(x.jval() =~~= v.dv());
                            }
                            Some(x)
                        },
                        _ => {
                            proof {
                                assert forall|x: MsgDelegateFeedConsent| v.dv() != #[trigger] x.jval() by {
                                    if v.dv() == x.jval() {
                                        assert(v.dv()->Obj_0[0].1 == x.operator.jval());
                                        assert(v.dv()->Obj_0[1].1 == x.delegate.jval());
                                    }
                                }
                            }
                            None
                        },
                    }
                } else {
                    proof {
                        assert forall|x: MsgDelegateFeedConsent| v.dv() != #[trigger] x.jval() by {
                            if v.dv() == x.jval() {
                                assert(v.dv()->Obj_0.len() == 2);
                                assert(v.dv()->Obj_0[0].0 == "operator"@);
                                assert(v.dv()->Obj_0[1].0 == "delegate"@);
                            }
                        }
                    }
                    None
                }
            },
            _ => None,
        }
    }
}
/// Every message the oracle module group accepts, tagged by kind.
#[derive(Clone, Debug, PartialEq, Eq)]
pub enum UmeeMsgOracle {
    AggregateExchangeRatePrevote(MsgAggregateExchangeRatePrevote),
    AggregateExchangeRateVote(MsgAggregateExchangeRateVote),
    DelegateFeedConsent(MsgDelegateFeedConsent),
}
/// Length and distinguishing characters of every variant key of the
/// wire shape.
proof fn lemma_umee_msg_oracle_keys()
    ensures
        "aggregate_exchange_rate_prevote"@.len() == 31,
        "aggregate_exchange_rate_vote"@.len() == 28,
        "delegate_feed_consent"@.len() == 21,
        "aggregate_exchange_rate_prevote"@[0] == 'a',
        "aggregate_exchange_rate_vote"@[0] == 'a',
        "delegate_feed_consent"@[0] == 'd',
{
    reveal_strlit("aggregate_exchange_rate_prevote");
    assert("aggregate_exchange_rate_prevote"@ =~= seq!['a', 'g', 'g', 'r', 'e', 'g', 'a', 't', 'e', '_', 'e', 'x', 'c', 'h', 'a', 'n', 'g', 'e', '_', 'r', 'a', 't', 'e', '_', 'p', 'r', 'e', 'v', 'o', 't', 'e']);
    reveal_strlit("aggregate_exchange_rate_vote");
    assert("aggregate_exchange_rate_vote"@ =~= seq!['a', 'g', 'g', 'r', 'e', 'g', 'a', 't', 'e', '_', 'e', 'x', 'c', 'h', 'a', 'n', 'g', 'e', '_', 'r', 'a', 't', 'e', '_', 'v', 'o', 't', 'e']);
    reveal_strlit("delegate_feed_consent");
    assert("delegate_feed_consent"@ =~= seq!['d', 'e', 'l', 'e', 'g', 'a', 't', 'e', '_', 'f', 'e', 'e', 'd', '_', 'c', 'o', 'n', 's', 'e', 'n', 't']);
}

/// Every value's wire record is a single-entry object.
proof fn lemma_umee_msg_oracle_shape(x: UmeeMsgOracle)
    ensures
        x.jval() is Obj,
        x.jval()->Obj_0.len() == 1,
{
    match x {
        UmeeMsgOracle::AggregateExchangeRatePrevote(q) => {
            assert(x.jval()->Obj_0.len() == 1);
        },
        UmeeMsgOracle::AggregateExchangeRateVote(q) => {
            assert(x.jval()->Obj_0.len() == 1);
        },
        UmeeMsgOracle::DelegateFeedConsent(q) => {
            assert(x.jval()->Obj_0.len() == 1);
        },
    }
}

/// A value whose wire record is this single entry is the variant the
/// entry's key names, and the entry's payload is that variant's.
proof fn lemma_umee_msg_oracle_tag(x: UmeeMsgOracle, e: (Seq<char>, JsonSpec))
    requires
        JsonSpec::Obj(seq![e]) == x.jval(),
    ensures
        ({
            ||| (x matches UmeeMsgOracle::AggregateExchangeRatePrevote(q) && e == ("aggregate_exchange_rate_prevote"@, q.jval()))
            ||| (x matches UmeeMsgOracle::AggregateExchangeRateVote(q) && e == ("aggregate_exchange_rate_vote"@, q.jval()))
            ||| (x matches UmeeMsgOracle::DelegateFeedConsent(q) && e == ("delegate_feed_consent"@, q.jval()))
        }),
{
    match x {
        UmeeMsgOracle::AggregateExchangeRatePrevote(q) => {
            assert(x.jval()->Obj_0[0] == ("aggregate_exchange_rate_prevote"@, q.jval()));
            assert(e == ("aggregate_exchange_rate_prevote"@, q.jval()));
        },
        UmeeMsgOracle::AggregateExchangeRateVote(q) => {
            assert(x.jval()->Obj_0[0] == ("aggregate_exchange_rate_vote"@, q.jval()));
            assert(e == ("aggregate_exchange_rate_vote"@, q.jval()));
        },
        UmeeMsgOracle::DelegateFeedConsent(q) => {
            assert(x.jval()->Obj_0[0] == ("delegate_feed_consent"@, q.jval()));
            assert(e == ("delegate_feed_consent"@, q.jval()));
        },
    }
}

/// A single-entry wire shape under this key decodes only through its
/// own payload type.
proof fn lemma_umee_msg_oracle_reject_aggregate_exchange_rate_prevote(e: (Seq<char>, JsonSpec))
    requires
        e.0 == "aggregate_exchange_rate_prevote"@,
        forall|y: MsgAggregateExchangeRatePrevote| e.1 != #[trigger] y.jval(),
    ensures
        forall|x: UmeeMsgOracle| JsonSpec::Obj(seq![e]) != #[trigger] x.jval(),
{
    lemma_umee_msg_oracle_keys();
    assert forall|x: UmeeMsgOracle| JsonSpec::Obj(seq![e]) != #[trigger] x.jval() by {
        if JsonSpec::Obj(seq![e]) == x.jval() {
            lemma_umee_msg_oracle_tag(x, e);
            match x {
                UmeeMsgOracle::AggregateExchangeRatePrevote(q) => {
                    assert(e.1 == q.jval());
                },
                _ => {},
            }
        }
    }
}

/// A single-entry wire shape under this key decodes only through its
/// own payload type.
proof fn lemma_umee_msg_oracle_reject_aggregate_exchange_rate_vote(e: (Seq<char>, JsonSpec))
    requires
        e.0 == "aggregate_exchange_rate_vote"@,
        forall|y: MsgAggregateExchangeRateVote| e.1 != #[trigger] y.jval(),
    ensures
        forall|x: UmeeMsgOracle| JsonSpec::Obj(seq![e]) != #[trigger] x.jval(),
{
    lemma_umee_msg_oracle_keys();
    assert forall|x: UmeeMsgOracle| JsonSpec::Obj(seq![e]) != #[trigger] x.jval() by {
        if JsonSpec::Obj(seq![e]) == x.jval() {
            lemma_umee_msg_oracle_tag(x, e);
            match x {
                UmeeMsgOracle::AggregateExchangeRateVote(q) => {
                    assert(e.1 == q.jval());
                },
                _ => {},
            }
        }
    }
}

/// A single-entry wire shape under this key decodes only through its
/// own payload type.
proof fn lemma_umee_msg_oracle_reject_delegate_feed_consent(e: (Seq<char>, JsonSpec))
    requires
        e.0 == "delegate_feed_consent"@,
        forall|y: MsgDelegateFeedConsent| e.1 != #[trigger] y.jval(),
    ensures
        forall|x: UmeeMsgOracle| JsonSpec::Obj(seq![e]) != #[trigger] x.jval(),
{
    lemma_umee_msg_oracle_keys();
    assert forall|x: UmeeMsgOracle| JsonSpec::Obj(seq![e]) != #[trigger] x.jval() by {
        if JsonSpec::Obj(seq![e]) == x.jval() {
            lemma_umee_msg_oracle_tag(x, e);
            match x {
                UmeeMsgOracle::DelegateFeedConsent(q) => {
                    assert(e.1 == q.jval());
                },
                _ => {},
            }
        }
    }
}

/// A single-entry wire shape under an unknown key decodes to nothing.
proof fn lemma_umee_msg_oracle_reject_other(e: (Seq<char>, JsonSpec))
    requires
        e.0 != "aggregate_exchange_rate_prevote"@,
        e.0 != "aggregate_exchange_rate_vote"@,
        e.0 != "delegate_feed_consent"@,
    ensures
        forall|x: UmeeMsgOracle| JsonSpec::Obj(seq![e]) != #[trigger] x.jval(),
{
    assert forall|x: UmeeMsgOracle| JsonSpec::Obj(seq![e]) != #[trigger] x.jval() by {
        if JsonSpec::Obj(seq![e]) == x.jval() {
            lemma_umee_msg_oracle_tag(x, e);
        }
    }
}

impl WireRecord for UmeeMsgOracle {
    open spec fn jval(self) -> JsonSpec {
        match self {
            UmeeMsgOracle::AggregateExchangeRatePrevote(p) => JsonSpec::Obj(seq![("aggregate_exchange_rate_prevote"@, p.jval())]),
            UmeeMsgOracle::AggregateExchangeRateVote(p) => JsonSpec::Obj(seq![("aggregate_exchange_rate_vote"@, p.jval())]),
            UmeeMsgOracle::DelegateFeedConsent(p) => JsonSpec::Obj(seq![("delegate_feed_consent"@, p.jval())]),
        }
    }

    proof fn jval_wf(self) {
        match self {
            UmeeMsgOracle::AggregateExchangeRatePrevote(p) => {
                p.jval_wf();
                assert forall|k: int| 0 <= k < self.jval()->Obj_0.len() implies json_wf(
                    #[trigger] self.jval()->Obj_0[k].1,
                ) by {
                    assert(json_wf(self.jval()->Obj_0[0].1));
                }
            },
            UmeeMsgOracle::AggregateExchangeRateVote(p) => {
                p.jval_wf();
                assert forall|k: int| 0 <= k < self.jval()->Obj_0.len() implies json_wf(
                    #[trigger] self.jval()->Obj_0[k].1,
                ) by {
                    assert(json_wf(self.jval()->Obj_0[0].1));
                }
            },
            UmeeMsgOracle::DelegateFeedConsent(p) => {
                p.jval_wf();
                assert forall|k: int| 0 <= k < self.jval()->Obj_0.len() implies json_wf(
                    #[trigger] self.jval()->Obj_0[k].1,
                ) by {
                    assert(json_wf(self.jval()->Obj_0[0].1));
                }
            },
        }
    }

    fn build_jval(&self) -> (r: JsonVal) {
        match self {
            UmeeMsgOracle::AggregateExchangeRatePrevote(p) => {
                let mut entries: Vec<JsonEntry> = Vec::new();
                entries.push(JsonEntry { key: String::from_str("aggregate_exchange_rate_prevote"), val: p.build_jval() });
                let ghost ges = entries@;
                let r = JsonVal::Obj(entries);
                proof {
                    assert(r.dv()->Obj_0[0] == (ges[0].key@, ges[0].val.dv()));
                    assert(r.dv()->Obj_0 =~~= self.jval()->Obj_0);
                    assert(r.dv() =~~= self.jval());
                    assert(ges[0].val.wf());
                }
                r
            },
            UmeeMsgOracle::AggregateExchangeRateVote(p) => {
                let mut entries: Vec<JsonEntry> = Vec::new();
                entries.push(JsonEntry { key: String::from_str("aggregate_exchange_rate_vote"), val: p.build_jval() });
                let ghost ges = entries@;
                let r = JsonVal::Obj(entries);
                proof {
                    assert(r.dv()->Obj_0[0] == (ges[0].key@, ges[0].val.dv()));
                    assert(r.dv()->Obj_0 =~~= self.jval()->Obj_0);
                    assert(r.dv() =~~= self.jval());
                    assert(ges[0].val.wf());
                }
                r
            },
            UmeeMsgOracle::DelegateFeedConsent(p) => {
                let mut entries: Vec<JsonEntry> = Vec::new();
                entries.push(JsonEntry { key: String::from_str("delegate_feed_consent"), val: p.build_jval() });
                let ghost ges = entries@;
                let r = JsonVal::Obj(entries);
                proof {
                    assert(r.dv()->Obj_0[0] == (ges[0].key@, ges[0].val.dv()));
                    assert(r.dv()->Obj_0 =~~= self.jval()->Obj_0);
                    assert(r.dv() =~~= self.jval());
                    assert(ges[0].val.wf());
                }
                r
            },
        }
    }

    fn from_jval(v: &JsonVal) -> (r: Option<UmeeMsgOracle>) {
        match v {
            JsonVal::Obj(entries) => {
                if entries.len() == 1 {
                    proof {
                        assert(v.dv()->Obj_0[0] == (entries@[0].key@, entries@[0].val.dv()));
                        assert(v.dv()->Obj_0 =~~= seq![(entries@[0].key@, entries@[0].val.dv())]);
                        assert(v.dv() =~~= JsonSpec::Obj(seq![(entries@[0].key@, entries@[0].val.dv())]));
                    }
                    let key = entries[0].key.as_str();
                    if str_eq(key, "aggregate_exchange_rate_prevote") {
                        match WireRecord::from_jval(&entries[0].val) {
                            Some(p) => {
                                let x = UmeeMsgOracle::AggregateExchangeRatePrevote(p);
                                proof {
                                    assert(x.jval()->Obj_0 =~~= v.dv()->Obj_0);
                                    assert(x.jval() =~~= v.dv());
                                }
                                Some(x)
                            },
                            None => {
                                proof {
                                    lemma_umee_msg_oracle_reject_aggregate_exchange_rate_prevote((entries@[0].key@, entries@[0].val.dv()));
                                }
                                None
                            },
                        }
                    } else if str_eq(key, "aggregate_exchange_rate_vote") {
                        match WireRecord::from_jval(&entries[0].val) {
                            Some(p) => {
                                let x = UmeeMsgOracle::AggregateExchangeRateVote(p);
                                proof {
                                    assert(x.jval()->Obj_0 =~~= v.dv()->Obj_0);
                                    assert(x.jval() =~~= v.dv());
                                }
                                Some(x)
                            },
                            None => {
                                proof {
                                    lemma_umee_msg_oracle_reject_aggregate_exchange_rate_vote((entries@[0].key@, entries@[0].val.dv()));
                                }
                                None
                            },
                        }
                    } else if str_eq(key, "delegate_feed_consent") {
                        match WireRecord::from_jval(&entries[0].val) {
                            Some(p) => {
                                let x = UmeeMsgOracle::DelegateFeedConsent(p);
                                proof {
                                    assert(x.jval()->Obj_0 =~~= v.dv()->Obj_0);
                                    assert(x.jval() =~~= v.dv());
                                }
                                Some(x)
                            },
                            None => {
                                proof {
                                    lemma_umee_msg_oracle_reject_delegate_feed_consent((entries@[0].key@, entries@[0].val.dv()));
                                }
                                None
                            },
                        }
                    } else {
                        proof {
                            lemma_umee_msg_oracle_reject_other((entries@[0].key@, entries@[0].val.dv()));
                        }
                        None
                    }
                } else {
                    proof {
                        assert forall|x: UmeeMsgOracle| v.dv() != #[trigger] x.jval() by {
                            lemma_umee_msg_oracle_shape(x);
                        }
                    }
                    None
                }
            },
            _ => {
                proof {
                    assert forall|x: UmeeMsgOracle| v.dv() != #[trigger] x.jval() by {
                        lemma_umee_msg_oracle_shape(x);
                    }
                }
                None
            },
        }
    }
}
} // verus!
