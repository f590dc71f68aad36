//! The message envelope.
//!
//! A message to a native module group travels as a wide record: one
//! discriminant naming the message kind under the fixed key `assigned_msg`,
//! plus exactly one payload slot keyed by the kind's canonical name. The
//! builders below are the only way to produce an envelope, so the
//! single-slot invariant holds by construction; `lemma_msg_single_slot`
//! states it for every envelope value.

use vstd::prelude::*;

use crate::error::ContractError;
use crate::msg_leverage::{MsgTypes, UmeeMsgLeverage};
use crate::msg_leverage::{BorrowParams, CollateralizeParams, DecollateralizeParams, LiquidateParams, MsgMaxBorrowParams, MsgMaxWithDrawParams, RepayParams, SupplyCollateralParams, SupplyParams, WithdrawParams};
use crate::record::WireRecord;
use crate::response::{CosmosMsg, Response};
use crate::wire::{json_wf, str_eq, JsonEntry, JsonSpec, JsonVal};

verus! {

broadcast use vstd::string::group_string_axioms;

/// The native module groups that accept messages, as one tagged union.
#[derive(Clone, Debug, PartialEq, Eq)]
pub enum UmeeMsg {
    Leverage(UmeeMsgLeverage),
}

/// Length and distinguishing characters of every variant key of the
/// wire shape.
proof fn lemma_umee_msg_keys()
    ensures
        "leverage"@.len() == 8,
        "leverage"@[0] == 'l',
{
    reveal_strlit("leverage");
    assert("leverage"@ =~= seq!['l', 'e', 'v', 'e', 'r', 'a', 'g', 'e']);
}

/// Every value's wire record is a single-entry object.
proof fn lemma_umee_msg_shape(x: UmeeMsg)
    ensures
        x.jval() is Obj,
        x.jval()->Obj_0.len() == 1,
{
    match x {
        UmeeMsg::Leverage(q) => {
            assert(x.jval()->Obj_0.len() == 1);
        },
    }
}

/// A value whose wire record is this single entry is the variant the
/// entry's key names, and the entry's payload is that variant's.
proof fn lemma_umee_msg_tag(x: UmeeMsg, e: (Seq<char>, JsonSpec))
    requires
        JsonSpec::Obj(seq![e]) == x.jval(),
    ensures
        ({
            ||| (x matches UmeeMsg::Leverage(q) && e == ("leverage"@, q.jval()))
        }),
{
    match x {
        UmeeMsg::Leverage(q) => {
            assert(x.jval()->Obj_0[0] == ("leverage"@, q.jval()));
            assert(e == ("leverage"@, q.jval()));
        },
    }
}

/// A single-entry wire shape under this key decodes only through its
/// own payload type.
proof fn lemma_umee_msg_reject_leverage(e: (Seq<char>, JsonSpec))
    requires
        e.0 == "leverage"@,
        forall|y: UmeeMsgLeverage| e.1 != #[trigger] y.jval(),
    ensures
        forall|x: UmeeMsg| JsonSpec::Obj(seq![e]) != #[trigger] x.jval(),
{
    lemma_umee_msg_keys();
    assert forall|x: UmeeMsg| JsonSpec::Obj(seq![e]) != #[trigger] x.jval() by {
        if JsonSpec::Obj(seq![e]) == x.jval() {
            lemma_umee_msg_tag(x, e);
            match x {
                UmeeMsg::Leverage(q) => {
                    assert(e.1 == q.jval());
                },
                _ => {},
            }
        }
    }
}

/// A single-entry wire shape under an unknown key decodes to nothing.
proof fn lemma_umee_msg_reject_other(e: (Seq<char>, JsonSpec))
    requires
        e.0 != "leverage"@,
    ensures
        forall|x: UmeeMsg| JsonSpec::Obj(seq![e]) != #[trigger] x.jval(),
{
    assert forall|x: UmeeMsg| JsonSpec::Obj(seq![e]) != #[trigger] x.jval() by {
        if JsonSpec::Obj(seq![e]) == x.jval() {
            lemma_umee_msg_tag(x, e);
        }
    }
}

impl WireRecord for UmeeMsg {
    open spec fn jval(self) -> JsonSpec {
        match self {
            UmeeMsg::Leverage(p) => JsonSpec::Obj(seq![("leverage"@, p.jval())]),
        }
    }

    proof fn jval_wf(self) {
        match self {
            UmeeMsg::Leverage(p) => {
                p.jval_wf();
                assert forall|k: int| 0 <= k < self.jval()->Obj_0.len() implies json_wf(
                    #[trigger] self.jval()->Obj_0[k].1,
                ) by {
                    assert(json_wf(self.jval()->Obj_0[0].1));
                }
            },
        }
    }

    fn build_jval(&self) -> (r: JsonVal) {
        match self {
            UmeeMsg::Leverage(p) => {
                let mut entries: Vec<JsonEntry> = Vec::new();
                entries.push(JsonEntry { key: String::from_str("leverage"), val: p.build_jval() });
                let ghost ges = entries@;
                let r = JsonVal::Obj(entries);
                proof {
                    assert(r.dv()->Obj_0[0] == (ges[0].key@, ges[0].val.dv()));
                    assert(r.dv()->Obj_0 =~~= self.jval()->Obj_0);
                    assert(r.dv() =~~= self.jval());
                    assert(ges[0].val.wf());
                }
                r
            },
        }
    }

    fn from_jval(v: &JsonVal) -> (r: Option<UmeeMsg>) {
        match v {
            JsonVal::Obj(entries) => {
                if entries.len() == 1 {
                    proof {
                        assert(v.dv()->Obj_0[0] == (entries@[0].key@, entries@[0].val.dv()));
                        assert(v.dv()->Obj_0 =~~= seq![(entries@[0].key@, entries@[0].val.dv())]);
                        assert(v.dv() =~~= JsonSpec::Obj(seq![(entries@[0].key@, entries@[0].val.dv())]));
                    }
                    let key = entries[0].key.as_str();
                    if str_eq(key, "leverage") {
                        match WireRecord::from_jval(&entries[0].val) {
                            Some(p) => {
                                let x = UmeeMsg::Leverage(p);
                                proof {
                                    assert(x.jval()->Obj_0 =~~= v.dv()->Obj_0);
                                    assert(x.jval() =~~= v.dv());
                                }
                                Some(x)
                            },
                            None => {
                                proof {
                                    lemma_umee_msg_reject_leverage((entries@[0].key@, entries@[0].val.dv()));
                                }
                                None
                            },
                        }
                    } else {
                        proof {
                            lemma_umee_msg_reject_other((entries@[0].key@, entries@[0].val.dv()));
                        }
                        None
                    }
                } else {
                    proof {
                        assert forall|x: UmeeMsg| v.dv() != #[trigger] x.jval() by {
                            lemma_umee_msg_shape(x);
                        }
                    }
                    None
                }
            },
            _ => {
                proof {
                    assert forall|x: UmeeMsg| v.dv() != #[trigger] x.jval() by {
                        lemma_umee_msg_shape(x);
                    }
                }
                None
            },
        }
    }
}
/// The message envelope: a discriminant plus exactly one populated slot,
/// the one named by the discriminant's canonical name.
#[derive(Clone, Debug, PartialEq, Eq)]
pub struct StructUmeeMsg {
    sel: UmeeMsgLeverage,
}

impl StructUmeeMsg {
    /// The discriminant of the populated slot.
    pub closed spec fn assigned(self) -> MsgTypes {
        match self.sel {
            UmeeMsgLeverage::Supply(_) => MsgTypes::AssignedMsgSupply,
            UmeeMsgLeverage::Withdraw(_) => MsgTypes::AssignedMsgWithdraw,
            UmeeMsgLeverage::MaxWithDraw(_) => MsgTypes::AssignedMsgMaxWithdraw,
            UmeeMsgLeverage::Collateralize(_) => MsgTypes::AssignedMsgCollateralize,
            UmeeMsgLeverage::Decollateralize(_) => MsgTypes::AssignedMsgDecollateralize,
            UmeeMsgLeverage::Borrow(_) => MsgTypes::AssignedMsgBorrow,
            UmeeMsgLeverage::MaxBorrow(_) => MsgTypes::AssignedMsgMaxBorrow,
            UmeeMsgLeverage::Repay(_) => MsgTypes::AssignedMsgRepay,
            UmeeMsgLeverage::Liquidate(_) => MsgTypes::AssignedMsgLiquidate,
            UmeeMsgLeverage::SupplyCollateral(_) => MsgTypes::AssignedMsgSupplyCollateralize,
        }
    }

    /// The wire shape of the populated slot's payload.
    pub closed spec fn payload_jval(self) -> JsonSpec {
        match self.sel {
            UmeeMsgLeverage::Supply(p) => p.jval(),
            UmeeMsgLeverage::Withdraw(p) => p.jval(),
            UmeeMsgLeverage::MaxWithDraw(p) => p.jval(),
            UmeeMsgLeverage::Collateralize(p) => p.jval(),
            UmeeMsgLeverage::Decollateralize(p) => p.jval(),
            UmeeMsgLeverage::Borrow(p) => p.jval(),
            UmeeMsgLeverage::MaxBorrow(p) => p.jval(),
            UmeeMsgLeverage::Repay(p) => p.jval(),
            UmeeMsgLeverage::Liquidate(p) => p.jval(),
            UmeeMsgLeverage::SupplyCollateral(p) => p.jval(),
        }
    }

    /// The canonical name of the populated slot.
    pub open spec fn assigned_name(self) -> Seq<char> {
        self.assigned().spec_name()
    }

    /// The canonical name, as text.
    pub fn assigned_str(&self) -> (r: String)
        ensures
            r@ == self.assigned_name(),
    {
        match &self.sel {
            UmeeMsgLeverage::Supply(_) => String::from_str("supply"),
            UmeeMsgLeverage::Withdraw(_) => String::from_str("withdraw"),
            UmeeMsgLeverage::MaxWithDraw(_) => String::from_str("max_withdraw"),
            UmeeMsgLeverage::Collateralize(_) => String::from_str("collateralize"),
            UmeeMsgLeverage::Decollateralize(_) => String::from_str("decollateralize"),
            UmeeMsgLeverage::Borrow(_) => String::from_str("borrow"),
            UmeeMsgLeverage::MaxBorrow(_) => String::from_str("max_borrow"),
            UmeeMsgLeverage::Repay(_) => String::from_str("repay"),
            UmeeMsgLeverage::Liquidate(_) => String::from_str("liquidate"),
            UmeeMsgLeverage::SupplyCollateral(_) => String::from_str("supply_collateral"),
        }
    }

    /// An envelope is valid exactly when its discriminant resolves to a
    /// canonical name rather than the unrecognized sentinel; every envelope
    /// a builder produces does.
    pub fn valid(&self) -> (r: bool)
        ensures
            r == (self.assigned_name() != "unrecognized_msg"@),
            r,
    {
        let name = self.assigned_str();
        let unrecognized = !str_eq(name.as_str(), "unrecognized_msg");
        proof {
            reveal_strlit("unrecognized_msg");
            lemma_msg_types_names();
        }
        unrecognized
    }
}

/// The canonical name of every message kind has its own length, and none is
/// the unrecognized sentinel.
proof fn lemma_msg_types_names()
    ensures
        "supply"@.len() == 6,
        "withdraw"@.len() == 8,
        "max_withdraw"@.len() == 12,
        "collateralize"@.len() == 13,
        "decollateralize"@.len() == 15,
        "borrow"@.len() == 6,
        "max_borrow"@.len() == 10,
        "repay"@.len() == 5,
        "liquidate"@.len() == 9,
        "supply_collateral"@.len() == 17,
        "unrecognized_msg"@.len() == 16,
        "borrow"@[0] == 'b',
        "collateralize"@[0] == 'c',
        "decollateralize"@[0] == 'd',
        "liquidate"@[0] == 'l',
        "max_borrow"@[0] == 'm',
        "max_withdraw"@[0] == 'm',
        "repay"@[0] == 'r',
        "supply"@[0] == 's',
        "supply_collateral"@[0] == 's',
        "unrecognized_msg"@[0] == 'u',
        "withdraw"@[0] == 'w',
{
    reveal_strlit("supply");
    assert("supply"@ =~= seq!['s', 'u', 'p', 'p', 'l', 'y']);
    reveal_strlit("withdraw");
    assert("withdraw"@ =~= seq!['w', 'i', 't', 'h', 'd', 'r', 'a', 'w']);
    reveal_strlit("max_withdraw");
    assert("max_withdraw"@ =~= seq!['m', 'a', 'x', '_', 'w', 'i', 't', 'h', 'd', 'r', 'a', 'w']);
    reveal_strlit("collateralize");
    assert("collateralize"@ =~= seq!['c', 'o', 'l', 'l', 'a', 't', 'e', 'r', 'a', 'l', 'i', 'z', 'e']);
    reveal_strlit("decollateralize");
    assert("decollateralize"@ =~= seq!['d', 'e', 'c', 'o', 'l', 'l', 'a', 't', 'e', 'r', 'a', 'l', 'i', 'z', 'e']);
    reveal_strlit("borrow");
    assert("borrow"@ =~= seq!['b', 'o', 'r', 'r', 'o', 'w']);
    reveal_strlit("max_borrow");
    assert("max_borrow"@ =~= seq!['m', 'a', 'x', '_', 'b', 'o', 'r', 'r', 'o', 'w']);
    reveal_strlit("repay");
    assert("repay"@ =~= seq!['r', 'e', 'p', 'a', 'y']);
    reveal_strlit("liquidate");
    assert("liquidate"@ =~= seq!['l', 'i', 'q', 'u', 'i', 'd', 'a', 't', 'e']);
    reveal_strlit("supply_collateral");
    assert("supply_collateral"@ =~= seq!['s', 'u', 'p', 'p', 'l', 'y', '_', 'c', 'o', 'l', 'l', 'a', 't', 'e', 'r', 'a', 'l']);
    reveal_strlit("unrecognized_msg");
    assert("unrecognized_msg"@ =~= seq!['u', 'n', 'r', 'e', 'c', 'o', 'g', 'n', 'i', 'z', 'e', 'd', '_', 'm', 's', 'g']);
}

/// Every envelope's wire record is two entries: the discriminant entry
/// naming its kind, then the kind's payload slot under the same name.
proof fn lemma_msg_tag(x: StructUmeeMsg, e: Seq<(Seq<char>, JsonSpec)>)
    requires
        JsonSpec::Obj(e) == x.jval(),
    ensures
        e.len() == 2,
        ({
            ||| (x.sel matches UmeeMsgLeverage::Supply(q) && e[0] == (
                "assigned_msg"@,
                JsonSpec::Str("supply"@),
            ) && e[1] == ("supply"@, q.jval()))
            ||| (x.sel matches UmeeMsgLeverage::Withdraw(q) && e[0] == (
                "assigned_msg"@,
                JsonSpec::Str("withdraw"@),
            ) && e[1] == ("withdraw"@, q.jval()))
            ||| (x.sel matches UmeeMsgLeverage::MaxWithDraw(q) && e[0] == (
                "assigned_msg"@,
                JsonSpec::Str("max_withdraw"@),
            ) && e[1] == ("max_withdraw"@, q.jval()))
            ||| (x.sel matches UmeeMsgLeverage::Collateralize(q) && e[0] == (
                "assigned_msg"@,
                JsonSpec::Str("collateralize"@),
            ) && e[1] == ("collateralize"@, q.jval()))
            ||| (x.sel matches UmeeMsgLeverage::Decollateralize(q) && e[0] == (
                "assigned_msg"@,
                JsonSpec::Str("decollateralize"@),
            ) && e[1] == ("decollateralize"@, q.jval()))
            ||| (x.sel matches UmeeMsgLeverage::Borrow(q) && e[0] == (
                "assigned_msg"@,
                JsonSpec::Str("borrow"@),
            ) && e[1] == ("borrow"@, q.jval()))
            ||| (x.sel matches UmeeMsgLeverage::MaxBorrow(q) && e[0] == (
                "assigned_msg"@,
                JsonSpec::Str("max_borrow"@),
            ) && e[1] == ("max_borrow"@, q.jval()))
            ||| (x.sel matches UmeeMsgLeverage::Repay(q) && e[0] == (
                "assigned_msg"@,
                JsonSpec::Str("repay"@),
            ) && e[1] == ("repay"@, q.jval()))
            ||| (x.sel matches UmeeMsgLeverage::Liquidate(q) && e[0] == (
                "assigned_msg"@,
                JsonSpec::Str("liquidate"@),
            ) && e[1] == ("liquidate"@, q.jval()))
            ||| (x.sel matches UmeeMsgLeverage::SupplyCollateral(q) && e[0] == (
                "assigned_msg"@,
                JsonSpec::Str("supply_collateral"@),
            ) && e[1] == ("supply_collateral"@, q.jval()))
        }),
{
    match x.sel {
        UmeeMsgLeverage::Supply(q) => {
            assert(x.jval()->Obj_0[0] == ("assigned_msg"@, JsonSpec::Str("supply"@)));
            assert(x.jval()->Obj_0[1] == ("supply"@, q.jval()));
        },
        UmeeMsgLeverage::Withdraw(q) => {
            assert(x.jval()->Obj_0[0] == ("assigned_msg"@, JsonSpec::Str("withdraw"@)));
            assert(x.jval()->Obj_0[1] == ("withdraw"@, q.jval()));
        },
        UmeeMsgLeverage::MaxWithDraw(q) => {
            assert(x.jval()->Obj_0[0] == ("assigned_msg"@, JsonSpec::Str("max_withdraw"@)));
            assert(x.jval()->Obj_0[1] == ("max_withdraw"@, q.jval()));
        },
        UmeeMsgLeverage::Collateralize(q) => {
            assert(x.jval()->Obj_0[0] == ("assigned_msg"@, JsonSpec::Str("collateralize"@)));
            assert(x.jval()->Obj_0[1] == ("collateralize"@, q.jval()));
        },
        UmeeMsgLeverage::Decollateralize(q) => {
            assert(x.jval()->Obj_0[0] == ("assigned_msg"@, JsonSpec::Str("decollateralize"@)));
            assert(x.jval()->Obj_0[1] == ("decollateralize"@, q.jval()));
        },
        UmeeMsgLeverage::Borrow(q) => {
            assert(x.jval()->Obj_0[0] == ("assigned_msg"@, JsonSpec::Str("borrow"@)));
            assert(x.jval()->Obj_0[1] == ("borrow"@, q.jval()));
        },
        UmeeMsgLeverage::MaxBorrow(q) => {
            assert(x.jval()->Obj_0[0] == ("assigned_msg"@, JsonSpec::Str("max_borrow"@)));
            assert(x.jval()->Obj_0[1] == ("max_borrow"@, q.jval()));
        },
        UmeeMsgLeverage::Repay(q) => {
            assert(x.jval()->Obj_0[0] == ("assigned_msg"@, JsonSpec::Str("repay"@)));
            assert(x.jval()->Obj_0[1] == ("repay"@, q.jval()));
        },
        UmeeMsgLeverage::Liquidate(q) => {
            assert(x.jval()->Obj_0[0] == ("assigned_msg"@, JsonSpec::Str("liquidate"@)));
            assert(x.jval()->Obj_0[1] == ("liquidate"@, q.jval()));
        },
        UmeeMsgLeverage::SupplyCollateral(q) => {
            assert(x.jval()->Obj_0[0] == ("assigned_msg"@, JsonSpec::Str("supply_collateral"@)));
            assert(x.jval()->Obj_0[1] == ("supply_collateral"@, q.jval()));
        },
    }
}

/// A two-entry wire shape that names this message kind decodes only
/// through its own payload slot.
proof fn lemma_msg_reject_supply(e: Seq<(Seq<char>, JsonSpec)>)
    requires
        e.len() == 2,
        e[0].0 == "assigned_msg"@,
        e[0].1 == JsonSpec::Str("supply"@),
        e[1].0 != "supply"@ || (forall|y: SupplyParams| e[1].1 != #[trigger] y.jval()),
    ensures
        forall|x: StructUmeeMsg| JsonSpec::Obj(e) != #[trigger] x.jval(),
{
    lemma_msg_types_names();
    assert forall|x: StructUmeeMsg| JsonSpec::Obj(e) != #[trigger] x.jval() by {
        if JsonSpec::Obj(e) == x.jval() {
            lemma_msg_tag(x, e);
            match x.sel {
                UmeeMsgLeverage::Supply(q) => {
                    assert(e[1].1 == q.jval());
                },
                _ => {},
            }
        }
    }
}

/// A two-entry wire shape that names this message kind decodes only
/// through its own payload slot.
proof fn lemma_msg_reject_withdraw(e: Seq<(Seq<char>, JsonSpec)>)
    requires
        e.len() == 2,
        e[0].0 == "assigned_msg"@,
        e[0].1 == JsonSpec::Str("withdraw"@),
        e[1].0 != "withdraw"@ || (forall|y: WithdrawParams| e[1].1 != #[trigger] y.jval()),
    ensures
        forall|x: StructUmeeMsg| JsonSpec::Obj(e) != #[trigger] x.jval(),
{
    lemma_msg_types_names();
    assert forall|x: StructUmeeMsg| JsonSpec::Obj(e) != #[trigger] x.jval() by {
        if JsonSpec::Obj(e) == x.jval() {
            lemma_msg_tag(x, e);
            match x.sel {
                UmeeMsgLeverage::Withdraw(q) => {
                    assert(e[1].1 == q.jval());
                },
                _ => {},
            }
        }
    }
}

/// A two-entry wire shape that names this message kind decodes only
/// through its own payload slot.
proof fn lemma_msg_reject_max_withdraw(e: Seq<(Seq<char>, JsonSpec)>)
    requires
        e.len() == 2,
        e[0].0 == "assigned_msg"@,
        e[0].1 == JsonSpec::Str("max_withdraw"@),
        e[1].0 != "max_withdraw"@ || (forall|y: MsgMaxWithDrawParams| e[1].1 != #[trigger] y.jval()),
    ensures
        forall|x: StructUmeeMsg| JsonSpec::Obj(e) != #[trigger] x.jval(),
{
    lemma_msg_types_names();
    assert forall|x: StructUmeeMsg| JsonSpec::Obj(e) != #[trigger] x.jval() by {
        if JsonSpec::Obj(e) == x.jval() {
            lemma_msg_tag(x, e);
            match x.sel {
                UmeeMsgLeverage::MaxWithDraw(q) => {
                    assert(e[1].1 == q.jval());
                },
                _ => {},
            }
        }
    }
}

/// A two-entry wire shape that names this message kind decodes only
/// through its own payload slot.
proof fn lemma_msg_reject_collateralize(e: Seq<(Seq<char>, JsonSpec)>)
    requires
        e.len() == 2,
        e[0].0 == "assigned_msg"@,
        e[0].1 == JsonSpec::Str("collateralize"@),
        e[1].0 != "collateralize"@ || (forall|y: CollateralizeParams| e[1].1 != #[trigger] y.jval()),
    ensures
        forall|x: StructUmeeMsg| JsonSpec::Obj(e) != #[trigger] x.jval(),
{
    lemma_msg_types_names();
    assert forall|x: StructUmeeMsg| JsonSpec::Obj(e) != #[trigger] x.jval() by {
        if JsonSpec::Obj(e) == x.jval() {
            lemma_msg_tag(x, e);
            match x.sel {
                UmeeMsgLeverage::Collateralize(q) => {
                    assert(e[1].1 == q.jval());
                },
                _ => {},
            }
        }
    }
}

/// A two-entry wire shape that names this message kind decodes only
/// through its own payload slot.
proof fn lemma_msg_reject_decollateralize(e: Seq<(Seq<char>, JsonSpec)>)
    requires
        e.len() == 2,
        e[0].0 == "assigned_msg"@,
        e[0].1 == JsonSpec::Str("decollateralize"@),
        e[1].0 != "decollateralize"@ || (forall|y: DecollateralizeParams| e[1].1 != #[trigger] y.jval()),
    ensures
        forall|x: StructUmeeMsg| JsonSpec::Obj(e) != #[trigger] x.jval(),
{
    lemma_msg_types_names();
    assert forall|x: StructUmeeMsg| JsonSpec::Obj(e) != #[trigger] x.jval() by {
        if JsonSpec::Obj(e) == x.jval() {
            lemma_msg_tag(x, e);
            match x.sel {
                UmeeMsgLeverage::Decollateralize(q) => {
                    assert(e[1].1 == q.jval());
                },
                _ => {},
            }
        }
    }
}

/// A two-entry wire shape that names this message kind decodes only
/// through its own payload slot.
proof fn lemma_msg_reject_borrow(e: Seq<(Seq<char>, JsonSpec)>)
    requires
        e.len() == 2,
        e[0].0 == "assigned_msg"@,
        e[0].1 == JsonSpec::Str("borrow"@),
        e[1].0 != "borrow"@ || (forall|y: BorrowParams| e[1].1 != #[trigger] y.jval()),
    ensures
        forall|x: StructUmeeMsg| JsonSpec::Obj(e) != #[trigger] x.jval(),
{
    lemma_msg_types_names();
    assert forall|x: StructUmeeMsg| JsonSpec::Obj(e) != #[trigger] x.jval() by {
        if JsonSpec::Obj(e) == x.jval() {
            lemma_msg_tag(x, e);
            match x.sel {
                UmeeMsgLeverage::Borrow(q) => {
                    assert(e[1].1 == q.jval());
                },
                _ => {},
            }
        }
    }
}

/// A two-entry wire shape that names this message kind decodes only
/// through its own payload slot.
proof fn lemma_msg_reject_max_borrow(e: Seq<(Seq<char>, JsonSpec)>)
    requires
        e.len() == 2,
        e[0].0 == "assigned_msg"@,
        e[0].1 == JsonSpec::Str("max_borrow"@),
        e[1].0 != "max_borrow"@ || (forall|y: MsgMaxBorrowParams| e[1].1 != #[trigger] y.jval()),
    ensures
        forall|x: StructUmeeMsg| JsonSpec::Obj(e) != #[trigger] x.jval(),
{
    lemma_msg_types_names();
    assert forall|x: StructUmeeMsg| JsonSpec::Obj(e) != #[trigger] x.jval() by {
        if JsonSpec::Obj(e) == x.jval() {
            lemma_msg_tag(x, e);
            match x.sel {
                UmeeMsgLeverage::MaxBorrow(q) => {
                    assert(e[1].1 == q.jval());
                },
                _ => {},
            }
        }
    }
}

/// A two-entry wire shape that names this message kind decodes only
/// through its own payload slot.
proof fn lemma_msg_reject_repay(e: Seq<(Seq<char>, JsonSpec)>)
    requires
        e.len() == 2,
        e[0].0 == "assigned_msg"@,
        e[0].1 == JsonSpec::Str("repay"@),
        e[1].0 != "repay"@ || (forall|y: RepayParams| e[1].1 != #[trigger] y.jval()),
    ensures
        forall|x: StructUmeeMsg| JsonSpec::Obj(e) != #[trigger] x.jval(),
{
    lemma_msg_types_names();
    assert forall|x: StructUmeeMsg| JsonSpec::Obj(e) != #[trigger] x.jval() by {
        if JsonSpec::Obj(e) == x.jval() {
            lemma_msg_tag(x, e);
            match x.sel {
                UmeeMsgLeverage::Repay(q) => {
                    assert(e[1].1 == q.jval());
                },
                _ => {},
            }
        }
    }
}

/// A two-entry wire shape that names this message kind decodes only
/// through its own payload slot.
proof fn lemma_msg_reject_liquidate(e: Seq<(Seq<char>, JsonSpec)>)
    requires
        e.len() == 2,
        e[0].0 == "assigned_msg"@,
        e[0].1 == JsonSpec::Str("liquidate"@),
        e[1].0 != "liquidate"@ || (forall|y: LiquidateParams| e[1].1 != #[trigger] y.jval()),
    ensures
        forall|x: StructUmeeMsg| JsonSpec::Obj(e) != #[trigger] x.jval(),
{
    lemma_msg_types_names();
    assert forall|x: StructUmeeMsg| JsonSpec::Obj(e) != #[trigger] x.jval() by {
        if JsonSpec::Obj(e) == x.jval() {
            lemma_msg_tag(x, e);
            match x.sel {
                UmeeMsgLeverage::Liquidate(q) => {
                    assert(e[1].1 == q.jval());
                },
                _ => {},
            }
        }
    }
}

/// A two-entry wire shape that names this message kind decodes only
/// through its own payload slot.
proof fn lemma_msg_reject_supply_collateral(e: Seq<(Seq<char>, JsonSpec)>)
    requires
        e.len() == 2,
        e[0].0 == "assigned_msg"@,
        e[0].1 == JsonSpec::Str("supply_collateral"@),
        e[1].0 != "supply_collateral"@ || (forall|y: SupplyCollateralParams| e[1].1 != #[trigger] y.jval()),
    ensures
        forall|x: StructUmeeMsg| JsonSpec::Obj(e) != #[trigger] x.jval(),
{
    lemma_msg_types_names();
    assert forall|x: StructUmeeMsg| JsonSpec::Obj(e) != #[trigger] x.jval() by {
        if JsonSpec::Obj(e) == x.jval() {
            lemma_msg_tag(x, e);
            match x.sel {
                UmeeMsgLeverage::SupplyCollateral(q) => {
                    assert(e[1].1 == q.jval());
                },
                _ => {},
            }
        }
    }
}

/// A two-entry wire shape that names no message kind decodes to nothing.
proof fn lemma_msg_reject_unknown(e: Seq<(Seq<char>, JsonSpec)>, name: Seq<char>)
    requires
        e.len() == 2,
        e[0].1 == JsonSpec::Str(name),
        name != "supply"@,
        name != "withdraw"@,
        name != "max_withdraw"@,
        name != "collateralize"@,
        name != "decollateralize"@,
        name != "borrow"@,
        name != "max_borrow"@,
        name != "repay"@,
        name != "liquidate"@,
        name != "supply_collateral"@,
    ensures
        forall|x: StructUmeeMsg| JsonSpec::Obj(e) != #[trigger] x.jval(),
{
    assert forall|x: StructUmeeMsg| JsonSpec::Obj(e) != #[trigger] x.jval() by {
        if JsonSpec::Obj(e) == x.jval() {
            lemma_msg_tag(x, e);
        }
    }
}

/// A wire shape that is not a two-entry record headed by the discriminant
/// key, or whose discriminant is not a string, decodes to nothing.
proof fn lemma_msg_reject_shape(v: JsonSpec)
    requires
        v matches JsonSpec::Obj(e) ==> e.len() != 2 || e[0].0 != "assigned_msg"@ || !(e[0].1 is Str),
    ensures
        forall|x: StructUmeeMsg| v != #[trigger] x.jval(),
{
    assert forall|x: StructUmeeMsg| v != #[trigger] x.jval() by {
        if v == x.jval() {
            lemma_msg_tag(x, v->Obj_0);
        }
    }
}

impl WireRecord for StructUmeeMsg {
    /// The wire shape of the envelope: the discriminant's canonical name
    /// under the fixed discriminant key, then the one populated slot under
    /// that same name.
    closed spec fn jval(self) -> JsonSpec {
        JsonSpec::Obj(
            seq![
                ("assigned_msg"@, JsonSpec::Str(self.assigned_name())),
                (self.assigned_name(), self.payload_jval()),
            ],
        )
    }

    proof fn jval_wf(self) {
        match self.sel {
            UmeeMsgLeverage::Supply(p) => {
                p.jval_wf();
                assert forall|k: int| 0 <= k < self.jval()->Obj_0.len() implies json_wf(
                    #[trigger] self.jval()->Obj_0[k].1,
                ) by {
                    if k == 0 {
                        assert(json_wf(self.jval()->Obj_0[0].1));
                    } else {
                        assert(json_wf(self.jval()->Obj_0[1].1));
                    }
                }
            },
            UmeeMsgLeverage::Withdraw(p) => {
                p.jval_wf();
                assert forall|k: int| 0 <= k < self.jval()->Obj_0.len() implies json_wf(
                    #[trigger] self.jval()->Obj_0[k].1,
                ) by {
                    if k == 0 {
                        assert(json_wf(self.jval()->Obj_0[0].1));
                    } else {
                        assert(json_wf(self.jval()->Obj_0[1].1));
                    }
                }
            },
            UmeeMsgLeverage::MaxWithDraw(p) => {
                p.jval_wf();
                assert forall|k: int| 0 <= k < self.jval()->Obj_0.len() implies json_wf(
                    #[trigger] self.jval()->Obj_0[k].1,
                ) by {
                    if k == 0 {
                        assert(json_wf(self.jval()->Obj_0[0].1));
                    } else {
                        assert(json_wf(self.jval()->Obj_0[1].1));
                    }
                }
            },
            UmeeMsgLeverage::Collateralize(p) => {
                p.jval_wf();
                assert forall|k: int| 0 <= k < self.jval()->Obj_0.len() implies json_wf(
                    #[trigger] self.jval()->Obj_0[k].1,
                ) by {
                    if k == 0 {
                        assert(json_wf(self.jval()->Obj_0[0].1));
                    } else {
                        assert(json_wf(self.jval()->Obj_0[1].1));
                    }
                }
            },
            UmeeMsgLeverage::Decollateralize(p) => {
                p.jval_wf();
                assert forall|k: int| 0 <= k < self.jval()->Obj_0.len() implies json_wf(
                    #[trigger] self.jval()->Obj_0[k].1,
                ) by {
                    if k == 0 {
                        assert(json_wf(self.jval()->Obj_0[0].1));
                    } else {
                        assert(json_wf(self.jval()->Obj_0[1].1));
                    }
                }
            },
            UmeeMsgLeverage::Borrow(p) => {
                p.jval_wf();
                assert forall|k: int| 0 <= k < self.jval()->Obj_0.len() implies json_wf(
                    #[trigger] self.jval()->Obj_0[k].1,
                ) by {
                    if k == 0 {
                        assert(json_wf(self.jval()->Obj_0[0].1));
                    } else {
                        assert(json_wf(self.jval()->Obj_0[1].1));
                    }
                }
            },
            UmeeMsgLeverage::MaxBorrow(p) => {
                p.jval_wf();
                assert forall|k: int| 0 <= k < self.jval()->Obj_0.len() implies json_wf(
                    #[trigger] self.jval()->Obj_0[k].1,
                ) by {
                    if k == 0 {
                        assert(json_wf(self.jval()->Obj_0[0].1));
                    } else {
                        assert(json_wf(self.jval()->Obj_0[1].1));
                    }
                }
            },
            UmeeMsgLeverage::Repay(p) => {
                p.jval_wf();
                assert forall|k: int| 0 <= k < self.jval()->Obj_0.len() implies json_wf(
                    #[trigger] self.jval()->Obj_0[k].1,
                ) by {
                    if k == 0 {
                        assert(json_wf(self.jval()->Obj_0[0].1));
                    } else {
                        assert(json_wf(self.jval()->Obj_0[1].1));
                    }
                }
            },
            UmeeMsgLeverage::Liquidate(p) => {
                p.jval_wf();
                assert forall|k: int| 0 <= k < self.jval()->Obj_0.len() implies json_wf(
                    #[trigger] self.jval()->Obj_0[k].1,
                ) by {
                    if k == 0 {
                        assert(json_wf(self.jval()->Obj_0[0].1));
                    } else {
                        assert(json_wf(self.jval()->Obj_0[1].1));
                    }
                }
            },
            UmeeMsgLeverage::SupplyCollateral(p) => {
                p.jval_wf();
                assert forall|k: int| 0 <= k < self.jval()->Obj_0.len() implies json_wf(
                    #[trigger] self.jval()->Obj_0[k].1,
                ) by {
                    if k == 0 {
                        assert(json_wf(self.jval()->Obj_0[0].1));
                    } else {
                        assert(json_wf(self.jval()->Obj_0[1].1));
                    }
                }
            },
        }
    }

    fn build_jval(&self) -> (r: JsonVal) {
        let name = self.assigned_str();
        let payload = match &self.sel {
            UmeeMsgLeverage::Supply(p) => p.build_jval(),
            UmeeMsgLeverage::Withdraw(p) => p.build_jval(),
            UmeeMsgLeverage::MaxWithDraw(p) => p.build_jval(),
            UmeeMsgLeverage::Collateralize(p) => p.build_jval(),
            UmeeMsgLeverage::Decollateralize(p) => p.build_jval(),
            UmeeMsgLeverage::Borrow(p) => p.build_jval(),
            UmeeMsgLeverage::MaxBorrow(p) => p.build_jval(),
            UmeeMsgLeverage::Repay(p) => p.build_jval(),
            UmeeMsgLeverage::Liquidate(p) => p.build_jval(),
            UmeeMsgLeverage::SupplyCollateral(p) => p.build_jval(),
        };
        let mut entries: Vec<JsonEntry> = Vec::new();
        entries.push(JsonEntry { key: String::from_str("assigned_msg"), val: JsonVal::Str(name) });
        entries.push(JsonEntry { key: self.assigned_str(), val: payload });
        let ghost ges = entries@;
        let r = JsonVal::Obj(entries);
        proof {
            let dvs = r.dv()->Obj_0;
            assert(dvs.len() == 2);
            assert(dvs[0] == (ges[0].key@, ges[0].val.dv()));
            assert(dvs[1] == (ges[1].key@, ges[1].val.dv()));
            assert(r.dv()->Obj_0 =~~= self.jval()->Obj_0);
            assert(r.dv() =~~= self.jval());
            assert(ges[0].val.wf() && ges[1].val.wf());
        }
        r
    }

    #[verifier::rlimit(50)]
    fn from_jval(v: &JsonVal) -> (r: Option<StructUmeeMsg>) {
        match v {
            JsonVal::Obj(entries) => {
                let head = entries.len() == 2 && str_eq(entries[0].key.as_str(), "assigned_msg");
                proof {
                    let dvs = v.dv()->Obj_0;
                    assert(dvs.len() == entries@.len());
                    if entries@.len() == 2 {
                        assert(dvs[0] == (entries@[0].key@, entries@[0].val.dv()));
                        assert(dvs[1] == (entries@[1].key@, entries@[1].val.dv()));
                        assert(dvs =~~= seq![
                            (entries@[0].key@, entries@[0].val.dv()),
                            (entries@[1].key@, entries@[1].val.dv()),
                        ]);
                        assert(v.dv() =~~= JsonSpec::Obj(seq![
                            (entries@[0].key@, entries@[0].val.dv()),
                            (entries@[1].key@, entries@[1].val.dv()),
                        ]));
                    }
                }
                if head {
                    match &entries[0].val {
                        JsonVal::Str(name) => {
                            let nm = name.as_str();
                            if str_eq(nm, "supply") {
                                if str_eq(entries[1].key.as_str(), "supply") {
                                    let p: Option<SupplyParams> = WireRecord::from_jval(&entries[1].val);
                                    match p {
                                        Some(p) => {
                                            let x = StructUmeeMsg { sel: UmeeMsgLeverage::Supply(p) };
                                            proof {
                                                assert(x.jval()->Obj_0 =~~= v.dv()->Obj_0);
                                                assert(x.jval() =~~= v.dv());
                                            }
                                            Some(x)
                                        },
                                        None => {
                                            proof {
                                                lemma_msg_reject_supply(v.dv()->Obj_0);
                                            }
                                            None
                                        },
                                    }
                                } else {
                                    proof {
                                        lemma_msg_reject_supply(v.dv()->Obj_0);
                                    }
                                    None
                                }
                            } else if str_eq(nm, "withdraw") {
                                if str_eq(entries[1].key.as_str(), "withdraw") {
                                    let p: Option<WithdrawParams> = WireRecord::from_jval(&entries[1].val);
                                    match p {
                                        Some(p) => {
                                            let x = StructUmeeMsg { sel: UmeeMsgLeverage::Withdraw(p) };
                                            proof {
                                                assert(x.jval()->Obj_0 =~~= v.dv()->Obj_0);
                                                assert(x.jval() =~~= v.dv());
                                            }
                                            Some(x)
                                        },
                                        None => {
                                            proof {
                                                lemma_msg_reject_withdraw(v.dv()->Obj_0);
                                            }
                                            None
                                        },
                                    }
                                } else {
                                    proof {
                                        lemma_msg_reject_withdraw(v.dv()->Obj_0);
                                    }
                                    None
                                }
                            } else if str_eq(nm, "max_withdraw") {
                                if str_eq(entries[1].key.as_str(), "max_withdraw") {
                                    let p: Option<MsgMaxWithDrawParams> = WireRecord::from_jval(&entries[1].val);
                                    match p {
                                        Some(p) => {
                                            let x = StructUmeeMsg { sel: UmeeMsgLeverage::MaxWithDraw(p) };
                                            proof {
                                                assert(x.jval()->Obj_0 =~~= v.dv()->Obj_0);
                                                assert(x.jval() =~~= v.dv());
                                            }
                                            Some(x)
                                        },
                                        None => {
                                            proof {
                                                lemma_msg_reject_max_withdraw(v.dv()->Obj_0);
                                            }
                                            None
                                        },
                                    }
                                } else {
                                    proof {
                                        lemma_msg_reject_max_withdraw(v.dv()->Obj_0);
                                    }
                                    None
                                }
                            } else if str_eq(nm, "collateralize") {
                                if str_eq(entries[1].key.as_str(), "collateralize") {
                                    let p: Option<CollateralizeParams> = WireRecord::from_jval(&entries[1].val);
                                    match p {
                                        Some(p) => {
                                            let x = StructUmeeMsg { sel: UmeeMsgLeverage::Collateralize(p) };
                                            proof {
                                                assert(x.jval()->Obj_0 =~~= v.dv()->Obj_0);
                                                assert(x.jval() =~~= v.dv());
                                            }
                                            Some(x)
                                        },
                                        None => {
                                            proof {
                                                lemma_msg_reject_collateralize(v.dv()->Obj_0);
                                            }
                                            None
                                        },
                                    }
                                } else {
                                    proof {
                                        lemma_msg_reject_collateralize(v.dv()->Obj_0);
                                    }
                                    None
                                }
                            } else if str_eq(nm, "decollateralize") {
                                if str_eq(entries[1].key.as_str(), "decollateralize") {
                                    let p: Option<DecollateralizeParams> = WireRecord::from_jval(&entries[1].val);
                                    match p {
                                        Some(p) => {
                                            let x = StructUmeeMsg { sel: UmeeMsgLeverage::Decollateralize(p) };
                                            proof {
                                                assert(x.jval()->Obj_0 =~~= v.dv()->Obj_0);
                                                assert(x.jval() =~~= v.dv());
                                            }
                                            Some(x)
                                        },
                                        None => {
                                            proof {
                                                lemma_msg_reject_decollateralize(v.dv()->Obj_0);
                                            }
                                            None
                                        },
                                    }
                                } else {
                                    proof {
                                        lemma_msg_reject_decollateralize(v.dv()->Obj_0);
                                    }
                                    None
                                }
                            } else if str_eq(nm, "borrow") {
                                if str_eq(entries[1].key.as_str(), "borrow") {
                                    let p: Option<BorrowParams> = WireRecord::from_jval(&entries[1].val);
                                    match p {
                                        Some(p) => {
                                            let x = StructUmeeMsg { sel: UmeeMsgLeverage::Borrow(p) };
                                            proof {
                                                assert(x.jval()->Obj_0 =~~= v.dv()->Obj_0);
                                                assert(x.jval() =~~= v.dv());
                                            }
                                            Some(x)
                                        },
                                        None => {
                                            proof {
                                                lemma_msg_reject_borrow(v.dv()->Obj_0);
                                            }
                                            None
                                        },
                                    }
                                } else {
                                    proof {
                                        lemma_msg_reject_borrow(v.dv()->Obj_0);
                                    }
                                    None
                                }
                            } else if str_eq(nm, "max_borrow") {
                                if str_eq(entries[1].key.as_str(), "max_borrow") {
                                    let p: Option<MsgMaxBorrowParams> = WireRecord::from_jval(&entries[1].val);
                                    match p {
                                        Some(p) => {
                                            let x = StructUmeeMsg { sel: UmeeMsgLeverage::MaxBorrow(p) };
                                            proof {
                                                assert(x.jval()->Obj_0 =~~= v.dv()->Obj_0);
                                                assert(x.jval() =~~= v.dv());
                                            }
                                            Some(x)
                                        },
                                        None => {
                                            proof {
                                                lemma_msg_reject_max_borrow(v.dv()->Obj_0);
                                            }
                                            None
                                        },
                                    }
                                } else {
                                    proof {
                                        lemma_msg_reject_max_borrow(v.dv()->Obj_0);
                                    }
                                    None
                                }
                            } else if str_eq(nm, "repay") {
                                if str_eq(entries[1].key.as_str(), "repay") {
                                    let p: Option<RepayParams> = WireRecord::from_jval(&entries[1].val);
                                    match p {
                                        Some(p) => {
                                            let x = StructUmeeMsg { sel: UmeeMsgLeverage::Repay(p) };
                                            proof {
                                                assert(x.jval()->Obj_0 =~~= v.dv()->Obj_0);
                                                assert(x.jval() =~~= v.dv());
                                            }
                                            Some(x)
                                        },
                                        None => {
                                            proof {
                                                lemma_msg_reject_repay(v.dv()->Obj_0);
                                            }
                                            None
                                        },
                                    }
                                } else {
                                    proof {
                                        lemma_msg_reject_repay(v.dv()->Obj_0);
                                    }
                                    None
                                }
                            } else if str_eq(nm, "liquidate") {
                                if str_eq(entries[1].key.as_str(), "liquidate") {
                                    let p: Option<LiquidateParams> = WireRecord::from_jval(&entries[1].val);
                                    match p {
                                        Some(p) => {
                                            let x = StructUmeeMsg { sel: UmeeMsgLeverage::Liquidate(p) };
                                            proof {
                                                assert(x.jval()->Obj_0 =~~= v.dv()->Obj_0);
                                                assert(x.jval() =~~= v.dv());
                                            }
                                            Some(x)
                                        },
                                        None => {
                                            proof {
                                                lemma_msg_reject_liquidate(v.dv()->Obj_0);
                                            }
                                            None
                                        },
                                    }
                                } else {
                                    proof {
                                        lemma_msg_reject_liquidate(v.dv()->Obj_0);
                                    }
                                    None
                                }
                            } else if str_eq(nm, "supply_collateral") {
                                if str_eq(entries[1].key.as_str(), "supply_collateral") {
                                    let p: Option<SupplyCollateralParams> = WireRecord::from_jval(&entries[1].val);
                                    match p {
                                        Some(p) => {
                                            let x = StructUmeeMsg { sel: UmeeMsgLeverage::SupplyCollateral(p) };
                                            proof {
                                                assert(x.jval()->Obj_0 =~~= v.dv()->Obj_0);
                                                assert(x.jval() =~~= v.dv());
                                            }
                                            Some(x)
                                        },
                                        None => {
                                            proof {
                                                lemma_msg_reject_supply_collateral(v.dv()->Obj_0);
                                            }
                                            None
                                        },
                                    }
                                } else {
                                    proof {
                                        lemma_msg_reject_supply_collateral(v.dv()->Obj_0);
                                    }
                                    None
                                }
                            } else {
                                proof {
                                    lemma_msg_reject_unknown(v.dv()->Obj_0, nm@);
                                }
                                None
                            }
                        },
                        _ => {
                            proof {
                                lemma_msg_reject_shape(v.dv());
                            }
                            None
                        },
                    }
                } else {
                    proof {
                        lemma_msg_reject_shape(v.dv());
                    }
                    None
                }
            },
            _ => {
                proof {
                    lemma_msg_reject_shape(v.dv());
                }
                None
            },
        }
    }
}

/// Single-slot invariant: every envelope's wire record holds the
/// discriminant entry and exactly one payload slot, and that slot is named
/// by the discriminant's canonical name.
pub proof fn lemma_msg_single_slot(e: StructUmeeMsg)
    ensures
        e.jval() matches JsonSpec::Obj(es) && es.len() == 2,
        e.jval()->Obj_0[0] == ("assigned_msg"@, JsonSpec::Str(e.assigned_name())),
        e.jval()->Obj_0[1].0 == e.assigned_name(),
{
}

/// Wraps a validated envelope for the chain: the result carries the
/// envelope as its one outgoing message and records the canonical name of
/// the operation under the `method` attribute. An envelope whose
/// discriminant did not resolve would be rejected locally instead, before
/// ever reaching the host.
pub fn msg_chain(umee_msg: StructUmeeMsg) -> (r: Result<Response<StructUmeeMsg>, ContractError>)
    ensures
        r matches Ok(res) ==> {
            &&& res.attributes@.len() == 1
            &&& res.attributes@[0].key@ == "method"@
            &&& res.attributes@[0].value@ == umee_msg.assigned_name()
            &&& res.messages@ == seq![CosmosMsg::Custom(umee_msg)]
        },
        r is Ok == (umee_msg.assigned_name() != "unrecognized_msg"@),
        r is Ok,
{
    let name = umee_msg.assigned_str();
    if !umee_msg.valid() {
        return Err(ContractError::InvalidEnvelope);
    }
    let res = Response::new().add_attribute(String::from_str("method"), name).add_message(umee_msg);
    proof {
        assert(res.messages@ =~= seq![CosmosMsg::Custom(umee_msg)]);
    }
    Ok(res)
}

impl StructUmeeMsg {
    /// Builds and wraps a `supply` message.
    pub fn supply(params: SupplyParams) -> (r: Result<Response<StructUmeeMsg>, ContractError>)
        ensures
            r is Ok,
            r matches Ok(res) ==> {
                &&& res.attributes@.len() == 1
                &&& res.attributes@[0].key@ == "method"@
                &&& res.attributes@[0].value@ == "supply"@
                &&& res.messages@.len() == 1
                &&& res.messages@[0] matches CosmosMsg::Custom(e) && e.assigned() == MsgTypes::AssignedMsgSupply
                    && e.jval() == JsonSpec::Obj(
                    seq![
                        ("assigned_msg"@, JsonSpec::Str("supply"@)),
                        ("supply"@, params.jval()),
                    ],
                )
            },
    {
        let m = StructUmeeMsg { sel: UmeeMsgLeverage::Supply(params) };
        msg_chain(m)
    }

    /// Builds and wraps a `withdraw` message.
    pub fn withdraw(params: WithdrawParams) -> (r: Result<Response<StructUmeeMsg>, ContractError>)
        ensures
            r is Ok,
            r matches Ok(res) ==> {
                &&& res.attributes@.len() == 1
                &&& res.attributes@[0].key@ == "method"@
                &&& res.attributes@[0].value@ == "withdraw"@
                &&& res.messages@.len() == 1
                &&& res.messages@[0] matches CosmosMsg::Custom(e) && e.assigned() == MsgTypes::AssignedMsgWithdraw
                    && e.jval() == JsonSpec::Obj(
                    seq![
                        ("assigned_msg"@, JsonSpec::Str("withdraw"@)),
                        ("withdraw"@, params.jval()),
                    ],
                )
            },
    {
        let m = StructUmeeMsg { sel: UmeeMsgLeverage::Withdraw(params) };
        msg_chain(m)
    }

    /// Builds and wraps a `max_withdraw` message.
    pub fn max_withdraw(params: MsgMaxWithDrawParams) -> (r: Result<Response<StructUmeeMsg>, ContractError>)
        ensures
            r is Ok,
            r matches Ok(res) ==> {
                &&& res.attributes@.len() == 1
                &&& res.attributes@[0].key@ == "method"@
                &&& res.attributes@[0].value@ == "max_withdraw"@
                &&& res.messages@.len() == 1
                &&& res.messages@[0] matches CosmosMsg::Custom(e) && e.assigned() == MsgTypes::AssignedMsgMaxWithdraw
                    && e.jval() == JsonSpec::Obj(
                    seq![
                        ("assigned_msg"@, JsonSpec::Str("max_withdraw"@)),
                        ("max_withdraw"@, params.jval()),
                    ],
                )
            },
    {
        let m = StructUmeeMsg { sel: UmeeMsgLeverage::MaxWithDraw(params) };
        msg_chain(m)
    }

    /// Builds and wraps a `collateralize` message.
    pub fn collateralize(params: CollateralizeParams) -> (r: Result<Response<StructUmeeMsg>, ContractError>)
        ensures
            r is Ok,
            r matches Ok(res) ==> {
                &&& res.attributes@.len() == 1
                &&& res.attributes@[0].key@ == "method"@
                &&& res.attributes@[0].value@ == "collateralize"@
                &&& res.messages@.len() == 1
                &&& res.messages@[0] matches CosmosMsg::Custom(e) && e.assigned() == MsgTypes::AssignedMsgCollateralize
                    && e.jval() == JsonSpec::Obj(
                    seq![
                        ("assigned_msg"@, JsonSpec::Str("collateralize"@)),
                        ("collateralize"@, params.jval()),
                    ],
                )
            },
    {
        let m = StructUmeeMsg { sel: UmeeMsgLeverage::Collateralize(params) };
        msg_chain(m)
    }

    /// Builds and wraps a `decollateralize` message.
    pub fn decollateralize(params: DecollateralizeParams) -> (r: Result<Response<StructUmeeMsg>, ContractError>)
        ensures
            r is Ok,
            r matches Ok(res) ==> {
                &&& res.attributes@.len() == 1
                &&& res.attributes@[0].key@ == "method"@
                &&& res.attributes@[0].value@ == "decollateralize"@
                &&& res.messages@.len() == 1
                &&& res.messages@[0] matches CosmosMsg::Custom(e) && e.assigned() == MsgTypes::AssignedMsgDecollateralize
                    && e.jval() == JsonSpec::Obj(
                    seq![
                        ("assigned_msg"@, JsonSpec::Str("decollateralize"@)),
                        ("decollateralize"@, params.jval()),
                    ],
                )
            },
    {
        let m = StructUmeeMsg { sel: UmeeMsgLeverage::Decollateralize(params) };
        msg_chain(m)
    }

    /// Builds and wraps a `borrow` message.
    pub fn borrow(params: BorrowParams) -> (r: Result<Response<StructUmeeMsg>, ContractError>)
        ensures
            r is Ok,
            r matches Ok(res) ==> {
                &&& res.attributes@.len() == 1
                &&& res.attributes@[0].key@ == "method"@
                &&& res.attributes@[0].value@ == "borrow"@
                &&& res.messages@.len() == 1
                &&& res.messages@[0] matches CosmosMsg::Custom(e) && e.assigned() == MsgTypes::AssignedMsgBorrow
                    && e.jval() == JsonSpec::Obj(
                    seq![
                        ("assigned_msg"@, JsonSpec::Str("borrow"@)),
                        ("borrow"@, params.jval()),
                    ],
                )
            },
    {
        let m = StructUmeeMsg { sel: UmeeMsgLeverage::Borrow(params) };
        msg_chain(m)
    }

    /// Builds and wraps a `max_borrow` message.
    pub fn max_borrow(params: MsgMaxBorrowParams) -> (r: Result<Response<StructUmeeMsg>, ContractError>)
        ensures
            r is Ok,
            r matches Ok(res) ==> {
                &&& res.attributes@.len() == 1
                &&& res.attributes@[0].key@ == "method"@
                &&& res.attributes@[0].value@ == "max_borrow"@
                &&& res.messages@.len() == 1
                &&& res.messages@[0] matches CosmosMsg::Custom(e) && e.assigned() == MsgTypes::AssignedMsgMaxBorrow
                    && e.jval() == JsonSpec::Obj(
                    seq![
                        ("assigned_msg"@, JsonSpec::Str("max_borrow"@)),
                        ("max_borrow"@, params.jval()),
                    ],
                )
            },
    {
        let m = StructUmeeMsg { sel: UmeeMsgLeverage::MaxBorrow(params) };
        msg_chain(m)
    }

    /// Builds and wraps a `repay` message.
    pub fn repay(params: RepayParams) -> (r: Result<Response<StructUmeeMsg>, ContractError>)
        ensures
            r is Ok,
            r matches Ok(res) ==> {
                &&& res.attributes@.len() == 1
                &&& res.attributes@[0].key@ == "method"@
                &&& res.attributes@[0].value@ == "repay"@
                &&& res.messages@.len() == 1
                &&& res.messages@[0] matches CosmosMsg::Custom(e) && e.assigned() == MsgTypes::AssignedMsgRepay
                    && e.jval() == JsonSpec::Obj(
                    seq![
                        ("assigned_msg"@, JsonSpec::Str("repay"@)),
                        ("repay"@, params.jval()),
                    ],
                )
            },
    {
        let m = StructUmeeMsg { sel: UmeeMsgLeverage::Repay(params) };
        msg_chain(m)
    }

    /// Builds and wraps a `liquidate` message.
    pub fn liquidate(params: LiquidateParams) -> (r: Result<Response<StructUmeeMsg>, ContractError>)
        ensures
            r is Ok,
            r matches Ok(res) ==> {
                &&& res.attributes@.len() == 1
                &&& res.attributes@[0].key@ == "method"@
                &&& res.attributes@[0].value@ == "liquidate"@
                &&& res.messages@.len() == 1
                &&& res.messages@[0] matches CosmosMsg::Custom(e) && e.assigned() == MsgTypes::AssignedMsgLiquidate
                    && e.jval() == JsonSpec::Obj(
                    seq![
                        ("assigned_msg"@, JsonSpec::Str("liquidate"@)),
                        ("liquidate"@, params.jval()),
                    ],
                )
            },
    {
        let m = StructUmeeMsg { sel: UmeeMsgLeverage::Liquidate(params) };
        msg_chain(m)
    }

    /// Builds and wraps a `supply_collateral` message.
    pub fn supply_collateral(params: SupplyCollateralParams) -> (r: Result<Response<StructUmeeMsg>, ContractError>)
        ensures
            r is Ok,
            r matches Ok(res) ==> {
                &&& res.attributes@.len() == 1
                &&& res.attributes@[0].key@ == "method"@
                &&& res.attributes@[0].value@ == "supply_collateral"@
                &&& res.messages@.len() == 1
                &&& res.messages@[0] matches CosmosMsg::Custom(e) && e.assigned() == MsgTypes::AssignedMsgSupplyCollateralize
                    && e.jval() == JsonSpec::Obj(
                    seq![
                        ("assigned_msg"@, JsonSpec::Str("supply_collateral"@)),
                        ("supply_collateral"@, params.jval()),
                    ],
                )
            },
    {
        let m = StructUmeeMsg { sel: UmeeMsgLeverage::SupplyCollateral(params) };
        msg_chain(m)
    }

}

/// The canonical name of the kind a leverage message dispatches as.
pub open spec fn leverage_msg_name(m: UmeeMsgLeverage) -> Seq<char> {
    match m {
            UmeeMsgLeverage::Supply(_) => "supply"@,
            UmeeMsgLeverage::Withdraw(_) => "withdraw"@,
            UmeeMsgLeverage::MaxWithDraw(_) => "max_withdraw"@,
            UmeeMsgLeverage::Collateralize(_) => "collateralize"@,
            UmeeMsgLeverage::Decollateralize(_) => "decollateralize"@,
            UmeeMsgLeverage::Borrow(_) => "borrow"@,
            UmeeMsgLeverage::MaxBorrow(_) => "max_borrow"@,
            UmeeMsgLeverage::Repay(_) => "repay"@,
            UmeeMsgLeverage::Liquidate(_) => "liquidate"@,
            UmeeMsgLeverage::SupplyCollateral(_) => "supply_collateral"@,
    }
}

/// The envelope wire record a leverage message dispatches as.
pub open spec fn leverage_msg_jval(m: UmeeMsgLeverage) -> JsonSpec {
    match m {
            UmeeMsgLeverage::Supply(p) => JsonSpec::Obj(
                seq![
                    ("assigned_msg"@, JsonSpec::Str("supply"@)),
                    ("supply"@, p.jval()),
                ],
            ),
            UmeeMsgLeverage::Withdraw(p) => JsonSpec::Obj(
                seq![
                    ("assigned_msg"@, JsonSpec::Str("withdraw"@)),
                    ("withdraw"@, p.jval()),
                ],
            ),
            UmeeMsgLeverage::MaxWithDraw(p) => JsonSpec::Obj(
                seq![
                    ("assigned_msg"@, JsonSpec::Str("max_withdraw"@)),
                    ("max_withdraw"@, p.jval()),
                ],
            ),
            UmeeMsgLeverage::Collateralize(p) => JsonSpec::Obj(
                seq![
                    ("assigned_msg"@, JsonSpec::Str("collateralize"@)),
                    ("collateralize"@, p.jval()),
                ],
            ),
            UmeeMsgLeverage::Decollateralize(p) => JsonSpec::Obj(
                seq![
                    ("assigned_msg"@, JsonSpec::Str("decollateralize"@)),
                    ("decollateralize"@, p.jval()),
                ],
            ),
            UmeeMsgLeverage::Borrow(p) => JsonSpec::Obj(
                seq![
                    ("assigned_msg"@, JsonSpec::Str("borrow"@)),
                    ("borrow"@, p.jval()),
                ],
            ),
            UmeeMsgLeverage::MaxBorrow(p) => JsonSpec::Obj(
                seq![
                    ("assigned_msg"@, JsonSpec::Str("max_borrow"@)),
                    ("max_borrow"@, p.jval()),
                ],
            ),
            UmeeMsgLeverage::Repay(p) => JsonSpec::Obj(
                seq![
                    ("assigned_msg"@, JsonSpec::Str("repay"@)),
                    ("repay"@, p.jval()),
                ],
            ),
            UmeeMsgLeverage::Liquidate(p) => JsonSpec::Obj(
                seq![
                    ("assigned_msg"@, JsonSpec::Str("liquidate"@)),
                    ("liquidate"@, p.jval()),
                ],
            ),
            UmeeMsgLeverage::SupplyCollateral(p) => JsonSpec::Obj(
                seq![
                    ("assigned_msg"@, JsonSpec::Str("supply_collateral"@)),
                    ("supply_collateral"@, p.jval()),
                ],
            ),
    }
}

/// One dispatched leverage message: the method attribute names the kind,
/// and the single outgoing message is exactly the kind's envelope.
pub open spec fn leverage_msg_dispatched(m: UmeeMsgLeverage, res: Response<StructUmeeMsg>) -> bool {
    &&& res.attributes@.len() == 1
    &&& res.attributes@[0].key@ == "method"@
    &&& res.attributes@[0].value@ == leverage_msg_name(m)
    &&& res.messages@.len() == 1
    &&& (res.messages@[0] matches CosmosMsg::Custom(e) && e.jval() == leverage_msg_jval(m))
}

/// Round trip: parsing the canonical wire text of any message envelope
/// yields exactly that envelope's wire record and consumes the whole text;
/// with the contracts of `encode_wire` and `decode_wire` this pins decoding
/// an encoded envelope down to one with the same wire record.
pub proof fn lemma_msg_round_trip(e: StructUmeeMsg)
    ensures
        crate::wire::p_json(crate::wire::jenc(e.jval()), 0) == Some(
            (e.jval(), crate::wire::jenc(e.jval()).len() as int),
        ),
{
    crate::record::lemma_wire_round_trip(e);
}

impl From<StructUmeeMsg> for CosmosMsg<StructUmeeMsg> {
    /// Tags an envelope as a custom host message.
    fn from(msg: StructUmeeMsg) -> (r: Self) {
        CosmosMsg::Custom(msg)
    }
}

impl vstd::std_specs::convert::FromSpecImpl<StructUmeeMsg> for CosmosMsg<StructUmeeMsg> {
    open spec fn obeys_from_spec() -> bool {
        true
    }

    open spec fn from_spec(msg: StructUmeeMsg) -> Self {
        CosmosMsg::Custom(msg)
    }
}

} // verus!
