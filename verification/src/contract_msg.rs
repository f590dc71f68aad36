//! The contract's own entry messages.

use vstd::prelude::*;

use crate::base::Addr;
use crate::msg::UmeeMsg;
use crate::msg_leverage::SupplyParams;
use crate::query::{StructUmeeQuery, UmeeQuery};
use crate::query_leverage::{LeverageParametersParams, RegisteredTokensParams};
use crate::query_oracle::ExchangeRatesParams;
use crate::record::WireRecord;
use crate::wire::{json_wf, str_eq, JsonEntry, JsonSpec, JsonVal};

verus! {

broadcast use vstd::string::group_string_axioms;

/// Instantiation takes no arguments; the sender becomes the owner.
#[derive(Clone, Debug, PartialEq, Eq)]
pub struct InstantiateMsg {
}

/// A native query request; this contract only issues custom requests, which
/// the host keys under `custom` on the wire.
#[derive(Clone, Debug, PartialEq, Eq)]
pub enum QueryRequest<C> {
    Custom(C),
}

impl<C: WireRecord> WireRecord for QueryRequest<C> {
    open spec fn jval(self) -> JsonSpec {
        match self {
            QueryRequest::Custom(c) => JsonSpec::Obj(seq![("custom"@, c.jval())]),
        }
    }

    proof fn jval_wf(self) {
        match self {
            QueryRequest::Custom(c) => {
                c.jval_wf();
                assert forall|k: int| 0 <= k < self.jval()->Obj_0.len() implies json_wf(
                    #[trigger] self.jval()->Obj_0[k].1,
                ) by {
                    assert(json_wf(self.jval()->Obj_0[0].1));
                }
            },
        }
    }

    fn build_jval(&self) -> (r: JsonVal) {
        match self {
            QueryRequest::Custom(c) => {
                let mut entries: Vec<JsonEntry> = Vec::new();
                entries.push(JsonEntry { key: String::from_str("custom"), val: c.build_jval() });
                let ghost ges = entries@;
                let r = JsonVal::Obj(entries);
                proof {
                    assert(r.dv()->Obj_0[0] == (ges[0].key@, ges[0].val.dv()));
                    assert(r.dv()->Obj_0 =~~= self.jval()->Obj_0);
                    assert(r.dv() =~~= self.jval());
                    assert(ges[0].val.wf());
                }
                r
            },
        }
    }

    fn from_jval(v: &JsonVal) -> (r: Option<QueryRequest<C>>) {
        match v {
            JsonVal::Obj(entries) => {
                if entries.len() == 1 {
                    proof {
                        assert(v.dv()->Obj_0[0] == (entries@[0].key@, entries@[0].val.dv()));
                        assert(v.dv()->Obj_0 =~~= seq![(entries@[0].key@, entries@[0].val.dv())]);
                        assert(v.dv() =~~= JsonSpec::Obj(seq![(entries@[0].key@, entries@[0].val.dv())]));
                    }
                    if str_eq(entries[0].key.as_str(), "custom") {
                        match C::from_jval(&entries[0].val) {
                            Some(c) => {
                                let x = QueryRequest::Custom(c);
                                proof {
                                    assert(x.jval()->Obj_0 =~~= v.dv()->Obj_0);
                                    assert(x.jval() =~~= v.dv());
                                }
                                Some(x)
                            },
                            None => {
                                proof {
                                    assert forall|x: QueryRequest<C>| v.dv() != #[trigger] x.jval() by {
                                        if v.dv() == x.jval() {
                                            match x {
                                                QueryRequest::Custom(q) => {
                                                    assert(x.jval()->Obj_0[0] == ("custom"@, q.jval()));
                                                },
                                            }
                                        }
                                    }
                                }
                                None
                            },
                        }
                    } else {
                        proof {
                            assert forall|x: QueryRequest<C>| v.dv() != #[trigger] x.jval() by {
                                match x {
                                    QueryRequest::Custom(q) => {
                                        assert(x.jval()->Obj_0[0] == ("custom"@, q.jval()));
                                    },
                                }
                            }
                        }
                        None
                    }
                } else {
                    proof {
                        assert forall|x: QueryRequest<C>| v.dv() != #[trigger] x.jval() by {
                            match x {
                                QueryRequest::Custom(q) => {
                                    assert(x.jval()->Obj_0.len() == 1);
                                },
                            }
                        }
                    }
                    None
                }
            },
            _ => {
                proof {
                    assert forall|x: QueryRequest<C>| v.dv() != #[trigger] x.jval() by {
                        match x {
                            QueryRequest::Custom(q) => {
                                assert(x.jval() is Obj);
                            },
                        }
                    }
                }
                None
            },
        }
    }
}

/// What a contract call may do.
#[derive(Clone, Debug, PartialEq, Eq)]
pub enum ExecuteMsg {
    /// Transfers ownership of the contract.
    ChangeOwner { new_owner: Addr },
    /// Dispatches a message to a native module group.
    Umee(UmeeMsg),
    /// Shorthand for a leverage supply message.
    Supply(SupplyParams),
}

/// What a contract call may ask.
#[derive(Clone, Debug, PartialEq, Eq)]
pub enum QueryMsg {
    /// Returns the current owner.
    GetOwner {},
    /// Forwards an already-built native request verbatim.
    Chain(Box<QueryRequest<StructUmeeQuery>>),
    /// Routes a query through the module-group tags.
    Umee(Box<UmeeQuery>),
    /// Shorthand for an oracle exchange-rates query.
    ExchangeRates(ExchangeRatesParams),
    /// Shorthand for a leverage registered-tokens query.
    RegisteredTokens(RegisteredTokensParams),
    /// Shorthand for a leverage parameters query.
    LeverageParameters(LeverageParametersParams),
}

/// The current owner of the contract.
#[derive(Clone, Debug, PartialEq, Eq)]
pub struct OwnerResponse {
    pub owner: Addr,
}
impl WireRecord for OwnerResponse {
    open spec fn jval(self) -> JsonSpec {
        JsonSpec::Obj(
            seq![
                ("owner"@, self.owner.jval()),
            ],
        )
    }

    proof fn jval_wf(self) {
        self.owner.jval_wf();
        assert forall|k: int| 0 <= k < self.jval()->Obj_0.len() implies json_wf(
            #[trigger] self.jval()->Obj_0[k].1,
        ) by {
            if k == 0 {
                assert(json_wf(self.jval()->Obj_0[0].1));
            }
        }
    }

    fn build_jval(&self) -> (r: JsonVal) {
        let mut entries: Vec<JsonEntry> = Vec::new();
        entries.push(JsonEntry { key: String::from_str("owner"), val: self.owner.build_jval() });
        let ghost ges = entries@;
        let r = JsonVal::Obj(entries);
        proof {
            let dvs = r.dv()->Obj_0;
            assert(dvs.len() == 1);
            assert(dvs[0] == (ges[0].key@, ges[0].val.dv()));
            assert(r.dv()->Obj_0 =~~= self.jval()->Obj_0);
            assert(r.dv() =~~= self.jval());
            assert(ges[0].val.wf());
        }
        r
    }

    fn from_jval(v: &JsonVal) -> (r: Option<OwnerResponse>) {
        match v {
            JsonVal::Obj(entries) => {
                let shape = entries.len() == 1 && str_eq(entries[0].key.as_str(), "owner");
                proof {
                    let dvs = v.dv()->Obj_0;
                    assert(dvs.len() == entries@.len());
                    if entries@.len() == 1 {
                        assert(dvs[0] == (entries@[0].key@, entries@[0].val.dv()));
                    }
                }
                if shape {
                    let g0: Option<Addr> = WireRecord::from_jval(&entries[0].val);
                    match (g0) {
                        (Some(h0)) => {
                            let x = OwnerResponse { owner: h0 };
                            proof {
                                assert(x.jval()->Obj_0 =~~= v.dv()->Obj_0);
                                assert(x.jval() =~~= v.dv());
                            }
                            Some(x)
                        },
                        _ => {
                            proof {
                                assert forall|x: OwnerResponse| v.dv() != #[trigger] x.jval() by {
                                    if v.dv() == x.jval() {
                                        assert(v.dv()->Obj_0[0].1 == x.owner.jval());
                                    }
                                }
                            }
                            None
                        },
                    }
                } else {
                    proof {
                        assert forall|x: OwnerResponse| v.dv() != #[trigger] x.jval() by {
                            if v.dv() == x.jval() {
                                assert(v.dv()->Obj_0.len() == 1);
                                assert(v.dv()->Obj_0[0].0 == "owner"@);
                            }
                        }
                    }
                    None
                }
            },
            _ => None,
        }
    }
}
} // verus!
