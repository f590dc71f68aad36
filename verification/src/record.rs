//! Typed records over the wire format.
//!
//! Every request parameter, response and envelope in this library states its
//! wire shape as a spec-level `jval` and carries a builder and an extractor
//! proved exact against it: the extractor accepts a wire value exactly when
//! it is the shape of some record, and then returns that record. `Vec` and
//! `Option` fields compose generically; a missing optional field travels as
//! an explicit null.

use vstd::prelude::*;

use crate::wire::{jenc, json_emit, json_parse, json_wf, p_json, JsonSpec, JsonVal};
use crate::wire::lemma_p_json_round_trip;

verus! {

/// A value with a canonical wire shape, a proved builder and a proved
/// extractor.
pub trait WireRecord: Sized {
    /// The wire shape of this record.
    spec fn jval(self) -> JsonSpec;

    /// Every record's wire shape lies inside the canonical format.
    proof fn jval_wf(self)
        ensures
            json_wf(self.jval()),
    ;

    /// Builds the wire value of this record.
    fn build_jval(&self) -> (r: JsonVal)
        ensures
            r.dv() == self.jval(),
            r.wf(),
    ;

    /// Reads a record back from a wire value: succeeds exactly on the wire
    /// shapes of records, and returns the record of that shape.
    fn from_jval(v: &JsonVal) -> (r: Option<Self>)
        ensures
            r matches Some(x) ==> x.jval() == v.dv(),
            forall|x: Self| v.dv() == #[trigger] x.jval() ==> r is Some,
    ;
}

impl WireRecord for String {
    open spec fn jval(self) -> JsonSpec {
        JsonSpec::Str(self@)
    }

    proof fn jval_wf(self) {
    }

    fn build_jval(&self) -> (r: JsonVal) {
        JsonVal::Str(self.clone())
    }

    fn from_jval(v: &JsonVal) -> (r: Option<String>) {
        match v {
            JsonVal::Str(s) => Some(s.clone()),
            _ => None,
        }
    }
}

impl WireRecord for bool {
    open spec fn jval(self) -> JsonSpec {
        JsonSpec::Bool(self)
    }

    proof fn jval_wf(self) {
    }

    fn build_jval(&self) -> (r: JsonVal) {
        JsonVal::Bool(*self)
    }

    fn from_jval(v: &JsonVal) -> (r: Option<bool>) {
        match v {
            JsonVal::Bool(b) => Some(*b),
            _ => None,
        }
    }
}

impl WireRecord for u64 {
    open spec fn jval(self) -> JsonSpec {
        JsonSpec::Int(self as int)
    }

    proof fn jval_wf(self) {
    }

    fn build_jval(&self) -> (r: JsonVal) {
        JsonVal::UInt(*self)
    }

    fn from_jval(v: &JsonVal) -> (r: Option<u64>) {
        match v {
            JsonVal::UInt(m) => Some(*m),
            JsonVal::NegInt(m) => {
                if *m == 0 {
                    Some(0)
                } else {
                    None
                }
            },
            _ => None,
        }
    }
}

impl WireRecord for u32 {
    open spec fn jval(self) -> JsonSpec {
        JsonSpec::Int(self as int)
    }

    proof fn jval_wf(self) {
    }

    fn build_jval(&self) -> (r: JsonVal) {
        JsonVal::UInt(*self as u64)
    }

    fn from_jval(v: &JsonVal) -> (r: Option<u32>) {
        match v {
            JsonVal::UInt(m) => {
                if *m <= 0xffff_ffffu64 {
                    Some(*m as u32)
                } else {
                    None
                }
            },
            JsonVal::NegInt(m) => {
                if *m == 0 {
                    Some(0)
                } else {
                    None
                }
            },
            _ => None,
        }
    }
}

impl WireRecord for i64 {
    open spec fn jval(self) -> JsonSpec {
        JsonSpec::Int(self as int)
    }

    proof fn jval_wf(self) {
    }

    fn build_jval(&self) -> (r: JsonVal) {
        if *self >= 0 {
            JsonVal::UInt(*self as u64)
        } else {
            let m = -(*self + 1);
            JsonVal::NegInt((m as u64) + 1)
        }
    }

    fn from_jval(v: &JsonVal) -> (r: Option<i64>) {
        match v {
            JsonVal::UInt(m) => {
                if *m <= 0x7fff_ffff_ffff_ffffu64 {
                    Some(*m as i64)
                } else {
                    None
                }
            },
            JsonVal::NegInt(m) => {
                if *m <= 0x8000_0000_0000_0000u64 {
                    let r = -((*m as i128)) as i64;
                    proof {
                        assert(r as int == -(*m as int));
                    }
                    Some(r)
                } else {
                    None
                }
            },
            _ => None,
        }
    }
}

/// The wire shapes of a sequence of records, in order.
pub open spec fn jvals_of<T: WireRecord>(items: Seq<T>) -> Seq<JsonSpec> {
    Seq::new(
        items.len(),
        |k: int| if 0 <= k < items.len() { items[k].jval() } else { JsonSpec::Null },
    )
}

impl<T: WireRecord> WireRecord for Vec<T> {
    open spec fn jval(self) -> JsonSpec {
        JsonSpec::Arr(jvals_of(self@))
    }

    proof fn jval_wf(self) {
        assert forall|k: int| 0 <= k < jvals_of(self@).len() implies json_wf(
            #[trigger] jvals_of(self@)[k],
        ) by {
            self@[k].jval_wf();
        }
    }

    fn build_jval(&self) -> (r: JsonVal) {
        let mut items: Vec<JsonVal> = Vec::new();
        let n = self.len();
        let mut k: usize = 0;
        while k < n
            invariant
                n == self@.len(),
                0 <= k <= n,
                items@.len() == k,
                forall|j: int| 0 <= j < k ==> (#[trigger] items@[j]).dv() == self@[j].jval()
                    && items@[j].wf(),
            decreases n - k,
        {
            let piece = self[k].build_jval();
            items.push(piece);
            k = k + 1;
        }
        let r = JsonVal::Arr(items);
        proof {
            assert(r.dv()->Arr_0 =~~= jvals_of(self@));
            assert(r.dv() =~~= self.jval());
        }
        r
    }

    fn from_jval(v: &JsonVal) -> (r: Option<Vec<T>>) {
        match v {
            JsonVal::Arr(items) => {
                let n = items.len();
                let mut out: Vec<T> = Vec::new();
                let mut k: usize = 0;
                while k < n
                    invariant
                        n == items@.len(),
                        v is Arr,
                        items == v->Arr_0,
                        0 <= k <= n,
                        out@.len() == k,
                        forall|j: int| 0 <= j < k ==> (#[trigger] out@[j]).jval()
                            == items@[j].dv(),
                    decreases n - k,
                {
                    match T::from_jval(&items[k]) {
                        Some(x) => {
                            out.push(x);
                        },
                        None => {
                            proof {
                                assert forall|xs: Vec<T>| v.dv() != #[trigger] xs.jval() by {
                                    if v.dv() == xs.jval() {
                                        assert(jvals_of(xs@).len() == items@.len());
                                        assert(v.dv()->Arr_0[k as int] == items@[k as int].dv());
                                        assert(jvals_of(xs@)[k as int] == xs@[k as int].jval());
                                    }
                                }
                            }
                            return None;
                        },
                    }
                    k = k + 1;
                }
                proof {
                    assert(jvals_of(out@) =~~= v.dv()->Arr_0);
                    assert(out.jval() =~~= v.dv());
                }
                Some(out)
            },
            _ => None,
        }
    }
}

impl<T: WireRecord> WireRecord for Option<T> {
    open spec fn jval(self) -> JsonSpec {
        match self {
            Option::None => JsonSpec::Null,
            Option::Some(x) => x.jval(),
        }
    }

    proof fn jval_wf(self) {
        match self {
            Option::None => {},
            Option::Some(x) => {
                x.jval_wf();
            },
        }
    }

    fn build_jval(&self) -> (r: JsonVal) {
        match self {
            Option::None => JsonVal::Null,
            Option::Some(x) => x.build_jval(),
        }
    }

    fn from_jval(v: &JsonVal) -> (r: Option<Option<T>>) {
        match v {
            JsonVal::Null => Some(None),
            _ => {
                match T::from_jval(v) {
                    Some(x) => Some(Some(x)),
                    None => {
                        proof {
                            assert forall|x: Option<T>| v.dv() != #[trigger] x.jval() by {
                                if v.dv() == x.jval() {
                                    assert(x matches Some(y) && y.jval() == v.dv());
                                }
                            }
                        }
                        None
                    },
                }
            },
        }
    }
}

/// Encodes a record to its canonical wire text.
pub fn encode_wire<T: WireRecord>(x: &T) -> (out: String)
    ensures
        out@ == jenc(x.jval()),
{
    let v = x.build_jval();
    json_emit(&v)
}

/// Decodes a record from wire text: succeeds exactly when the whole text is
/// the wire shape of some record, and then returns that record.
pub fn decode_wire<T: WireRecord>(s: &str) -> (r: Option<T>)
    ensures
        r matches Some(x) ==> p_json(s@, 0) == Some((x.jval(), s@.len() as int)),
        r is None ==> forall|x: T| p_json(s@, 0) != Some((#[trigger] x.jval(), s@.len() as int)),
{
    match json_parse(s) {
        None => None,
        Some(v) => {
            match T::from_jval(&v) {
                Some(x) => Some(x),
                None => None,
            }
        },
    }
}

/// Round trip: parsing the canonical wire text of any record yields exactly
/// that record's wire shape, consuming the whole text. Together with the
/// contracts of `encode_wire` and `decode_wire` this pins
/// `decode_wire(encode_wire(x))` down to a record with `x`'s wire shape.
pub proof fn lemma_wire_round_trip<T: WireRecord>(x: T)
    ensures
        p_json(jenc(x.jval()), 0) == Some((x.jval(), jenc(x.jval()).len() as int)),
{
    x.jval_wf();
    lemma_p_json_round_trip(x.jval());
}

} // verus!
