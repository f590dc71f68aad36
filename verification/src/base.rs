//! Plain value types shared by every module group.
//!
//! The host runtime deals in bech32 addresses, 128-bit coin amounts and
//! fixed-point decimals. The envelope logic never computes with those
//! values — it only carries them — so this library models each one by the
//! plain data the wire format shows: an address is its text, an amount is an
//! unsigned 128-bit integer written in decimal, and a decimal is its printed
//! form. Each type states its wire shape (`jval`) and carries a proved
//! builder and extractor for it.

use vstd::prelude::*;

use crate::record::WireRecord;
use crate::wire::{dec_str, fmt_u128, json_wf, str_eq, JsonEntry, JsonSpec, JsonVal};
use crate::wire::{lemma_canonical_digit_string, lemma_dec_str_digits, lemma_digits_fold_dec_str, lemma_p_digits_run};

verus! {

/// A bech32 account address, carried as its text.
#[derive(Clone, Debug, PartialEq, Eq)]
pub struct Addr {
    text: String,
}

impl View for Addr {
    type V = Seq<char>;

    closed spec fn view(&self) -> Seq<char> {
        self.text@
    }
}

impl Addr {
    /// Wraps address text without validating it, as the host API does.
    pub fn unchecked(text: String) -> (r: Addr)
        ensures
            r@ == text@,
    {
        Addr { text }
    }

    /// The address text.
    pub fn as_str(&self) -> (r: &str)
        ensures
            r@ == self@,
    {
        self.text.as_str()
    }

}

impl WireRecord for Addr {
    open spec fn jval(self) -> JsonSpec {
        JsonSpec::Str(self@)
    }

    proof fn jval_wf(self) {
    }

    fn build_jval(&self) -> (r: JsonVal) {
        JsonVal::Str(self.text.clone())
    }

    fn from_jval(v: &JsonVal) -> (r: Option<Addr>) {
        match v {
            JsonVal::Str(s) => Some(Addr { text: s.clone() }),
            _ => None,
        }
    }
}

/// An unsigned 128-bit amount, written on the wire as a decimal string.
#[derive(Clone, Debug, PartialEq, Eq)]
pub struct Uint128 {
    value: u128,
}

impl View for Uint128 {
    type V = int;

    closed spec fn view(&self) -> int {
        self.value as int
    }
}

impl Uint128 {
    /// Wraps an amount.
    pub fn new(value: u128) -> (r: Uint128)
        ensures
            r@ == value as int,
    {
        Uint128 { value }
    }

    /// The amount as a primitive integer.
    pub fn u128(&self) -> (r: u128)
        ensures
            r as int == self@,
    {
        self.value
    }

}

impl WireRecord for Uint128 {
    open spec fn jval(self) -> JsonSpec {
        JsonSpec::Str(dec_str(self@ as nat))
    }

    proof fn jval_wf(self) {
    }

    fn build_jval(&self) -> (r: JsonVal) {
        let mut out = String::new();
        fmt_u128(self.value, &mut out);
        proof {
            assert(Seq::<char>::empty() + dec_str(self.value as nat) =~= dec_str(
                self.value as nat,
            ));
        }
        JsonVal::Str(out)
    }

    fn from_jval(v: &JsonVal) -> (r: Option<Uint128>) {
        match v {
            JsonVal::Str(s) => {
                let ds = s.as_str();
                let n = ds.unicode_len();
                if n == 0 {
                    proof {
                        assert forall|x: Uint128| v.dv() != #[trigger] x.jval() by {
                            lemma_dec_str_digits(x.value as nat);
                        }
                    }
                    return None;
                }
                let c0 = ds.get_char(0);
                if n > 1 && c0 == '0' {
                    proof {
                        assert forall|x: Uint128| v.dv() != #[trigger] x.jval() by {
                            lemma_dec_str_digits(x.value as nat);
                            if x.value >= 10 {
                                assert(dec_str(x.value as nat).len() > 1);
                            }
                        }
                    }
                    return None;
                }
                match crate::wire::parse_u128_digits(ds, n) {
                    Some(m) => {
                        proof {
                            lemma_canonical_digit_string(ds@, m as int, u128::MAX as int);
                        }
                        Some(Uint128 { value: m })
                    },
                    None => {
                        proof {
                            assert forall|x: Uint128| v.dv() != #[trigger] x.jval() by {
                                if ds@ == dec_str(x.value as nat) {
                                    lemma_dec_str_digits(x.value as nat);
                                    lemma_digits_fold_dec_str(0, x.value as nat);
                                    lemma_p_digits_run(
                                        ds@,
                                        0,
                                        0,
                                        u128::MAX as int,
                                        dec_str(x.value as nat),
                                    );
                                }
                            }
                        }
                        None
                    },
                }
            },
            _ => None,
        }
    }
}

/// A fixed-point decimal of the host's 128-bit flavour, carried as its
/// printed form; this library never computes with it.
#[derive(Clone, Debug, PartialEq, Eq)]
pub struct Decimal {
    text: String,
}

impl View for Decimal {
    type V = Seq<char>;

    closed spec fn view(&self) -> Seq<char> {
        self.text@
    }
}

impl Decimal {
    /// Wraps decimal text without interpreting it.
    pub fn unchecked(text: String) -> (r: Decimal)
        ensures
            r@ == text@,
    {
        Decimal { text }
    }

    /// The printed form.
    pub fn as_str(&self) -> (r: &str)
        ensures
            r@ == self@,
    {
        self.text.as_str()
    }

}

impl WireRecord for Decimal {
    open spec fn jval(self) -> JsonSpec {
        JsonSpec::Str(self@)
    }

    proof fn jval_wf(self) {
    }

    fn build_jval(&self) -> (r: JsonVal) {
        JsonVal::Str(self.text.clone())
    }

    fn from_jval(v: &JsonVal) -> (r: Option<Decimal>) {
        match v {
            JsonVal::Str(s) => Some(Decimal { text: s.clone() }),
            _ => None,
        }
    }
}

/// A fixed-point decimal of the host's 256-bit flavour, carried as its
/// printed form; this library never computes with it.
#[derive(Clone, Debug, PartialEq, Eq)]
pub struct Decimal256 {
    text: String,
}

impl View for Decimal256 {
    type V = Seq<char>;

    closed spec fn view(&self) -> Seq<char> {
        self.text@
    }
}

impl Decimal256 {
    /// Wraps decimal text without interpreting it.
    pub fn unchecked(text: String) -> (r: Decimal256)
        ensures
            r@ == text@,
    {
        Decimal256 { text }
    }

    /// The printed form.
    pub fn as_str(&self) -> (r: &str)
        ensures
            r@ == self@,
    {
        self.text.as_str()
    }

}

impl WireRecord for Decimal256 {
    open spec fn jval(self) -> JsonSpec {
        JsonSpec::Str(self@)
    }

    proof fn jval_wf(self) {
    }

    fn build_jval(&self) -> (r: JsonVal) {
        JsonVal::Str(self.text.clone())
    }

    fn from_jval(v: &JsonVal) -> (r: Option<Decimal256>) {
        match v {
            JsonVal::Str(s) => Some(Decimal256 { text: s.clone() }),
            _ => None,
        }
    }
}

/// A coin: a denomination together with a 128-bit amount.
#[derive(Clone, Debug, PartialEq, Eq)]
pub struct Coin {
    pub denom: String,
    pub amount: Uint128,
}

impl Coin {
    /// Builds a coin from an amount and a denomination.
    pub fn new(amount: u128, denom: String) -> (r: Coin)
        ensures
            r.denom@ == denom@,
            r.amount@ == amount as int,
    {
        Coin { denom, amount: Uint128::new(amount) }
    }

}

impl WireRecord for Coin {
    open spec fn jval(self) -> JsonSpec {
        JsonSpec::Obj(
            seq![
                ("denom"@, JsonSpec::Str(self.denom@)),
                ("amount"@, self.amount.jval()),
            ],
        )
    }

    proof fn jval_wf(self) {
        self.amount.jval_wf();
        assert forall|k: int| 0 <= k < self.jval()->Obj_0.len() implies json_wf(
            #[trigger] self.jval()->Obj_0[k].1,
        ) by {
            if k == 0 {
                assert(json_wf(self.jval()->Obj_0[0].1));
            } else {
                assert(json_wf(self.jval()->Obj_0[1].1));
            }
        }
    }

    fn build_jval(&self) -> (r: JsonVal) {
        let mut entries: Vec<JsonEntry> = Vec::new();
        entries.push(JsonEntry { key: String::from_str("denom"), val: JsonVal::Str(self.denom.clone()) });
        entries.push(JsonEntry { key: String::from_str("amount"), val: self.amount.build_jval() });
        let ghost ges = entries@;
        let r = JsonVal::Obj(entries);
        proof {
            let dvs = r.dv()->Obj_0;
            assert(dvs.len() == 2);
            assert(dvs[0] == (ges[0].key@, ges[0].val.dv()));
            assert(dvs[1] == (ges[1].key@, ges[1].val.dv()));
            assert(r.dv()->Obj_0 =~~= self.jval()->Obj_0);
            assert(r.dv() =~~= self.jval());
            assert(ges[0].val.wf() && ges[1].val.wf());
        }
        r
    }

    fn from_jval(v: &JsonVal) -> (r: Option<Coin>) {
        match v {
            JsonVal::Obj(entries) => {
                let shape = entries.len() == 2 && str_eq(entries[0].key.as_str(), "denom")
                    && str_eq(entries[1].key.as_str(), "amount");
                proof {
                    let dvs = v.dv()->Obj_0;
                    assert(dvs.len() == entries@.len());
                    if entries@.len() == 2 {
                        assert(dvs[0] == (entries@[0].key@, entries@[0].val.dv()));
                        assert(dvs[1] == (entries@[1].key@, entries@[1].val.dv()));
                    }
                }
                if shape {
                    let denom = match &entries[0].val {
                        JsonVal::Str(s) => Some(s.clone()),
                        _ => None,
                    };
                    let amount = Uint128::from_jval(&entries[1].val);
                    match (denom, amount) {
                        (Some(d), Some(a)) => {
                            let x = Coin { denom: d, amount: a };
                            proof {
                                assert(x.jval()->Obj_0 =~~= v.dv()->Obj_0);
                                assert(x.jval() =~~= v.dv());
                            }
                            Some(x)
                        },
                        (d_r, a_r) => {
                            proof {
                                assert forall|x: Coin| v.dv() != #[trigger] x.jval() by {
                                    if v.dv() == x.jval() {
                                        assert(v.dv()->Obj_0[0].1 == JsonSpec::Str(x.denom@));
                                        assert(v.dv()->Obj_0[1].1 == x.amount.jval());
                                    }
                                }
                            }
                            None
                        },
                    }
                } else {
                    proof {
                        assert forall|x: Coin| v.dv() != #[trigger] x.jval() by {
                            if v.dv() == x.jval() {
                                assert(v.dv()->Obj_0.len() == 2);
                                assert(v.dv()->Obj_0[0].0 == "denom"@);
                                assert(v.dv()->Obj_0[1].0 == "amount"@);
                            }
                        }
                    }
                    None
                }
            },
            _ => None,
        }
    }
}

} // verus!
