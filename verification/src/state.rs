use vstd::prelude::*;
use crate::json::{
    as_bool, as_u64, bool_of, elements, elements_of, json_of, member, member_of, parse, u64_member,
    u64_member_of, u64_of,
};

verus! {

/// What a hop-state document holds under the four keys that are read, each
/// absent where the key is missing or its value has another type. An element
/// of `order` that is no unsigned integer is `None`.
#[derive(Debug, PartialEq, Eq)]
pub struct HopStateFields {
    pub order: Option<Vec<Option<u64>>>,
    pub randomized: Option<bool>,
    pub idx: Option<u64>,
    pub next_epoch_ms: Option<u64>,
}

/// The mathematical content of [`HopStateFields`].
pub struct HopStateDoc {
    pub order: Option<Seq<Option<u64>>>,
    pub randomized: Option<bool>,
    pub idx: Option<u64>,
    pub next_epoch_ms: Option<u64>,
}

impl View for HopStateFields {
    type V = HopStateDoc;

    open spec fn view(&self) -> HopStateDoc {
        HopStateDoc {
            order: match self.order {
                Some(v) => Some(v@),
                None => None,
            },
            randomized: self.randomized,
            idx: self.idx,
            next_epoch_ms: self.next_epoch_ms,
        }
    }
}

/// What each element of an array is as an unsigned integer.
pub open spec fn numbers_of(items: Seq<serde_json::Value>) -> Seq<Option<u64>> {
    Seq::new(items.len(), |i: int| u64_of(items[i]))
}

/// What a JSON value holds under the four keys of a hop state.
pub open spec fn doc_of(v: serde_json::Value) -> HopStateDoc {
    HopStateDoc {
        order: match member_of(v, "order"@) {
            Some(a) => match elements_of(a) {
                Some(items) => Some(numbers_of(items)),
                None => None,
            },
            None => None,
        },
        randomized: match member_of(v, "randomized"@) {
            Some(b) => bool_of(b),
            None => None,
        },
        idx: u64_member_of(v, "idx"@),
        next_epoch_ms: u64_member_of(v, "next_epoch_ms"@),
    }
}

/// What the bytes of a hop-state document hold once parsed as JSON; `None`
/// where the bytes are no JSON text.
pub open spec fn hop_state_doc(bytes: Seq<u8>) -> Option<HopStateDoc> {
    match json_of(bytes) {
        Some(v) => Some(doc_of(v)),
        None => None,
    }
}

/// Reads the four keys of a hop state out of a JSON value.
fn fields_of(v: &serde_json::Value) -> (r: HopStateFields)
    ensures
        r@ == doc_of(*v),
{
    let order: Option<Vec<Option<u64>>> = match member(v, "order") {
        Some(a) => match elements(a) {
            Some(items) => {
                let mut out: Vec<Option<u64>> = Vec::new();
                let mut i: usize = 0;
                while i < items.len()
                    invariant
                        i <= items.len(),
                        out@ == numbers_of(items@).subrange(0, i as int),
                    decreases items.len() - i,
                {
                    out.push(as_u64(&items[i]));
                    assert(out@ =~= numbers_of(items@).subrange(0, i + 1));
                    i += 1;
                }
                assert(numbers_of(items@).subrange(0, items.len() as int) =~= numbers_of(
                    items@,
                ));
                Some(out)
            },
            None => None,
        },
        None => None,
    };
    let randomized = match member(v, "randomized") {
        Some(b) => as_bool(b),
        None => None,
    };
    HopStateFields {
        order,
        randomized,
        idx: u64_member(v, "idx"),
        next_epoch_ms: u64_member(v, "next_epoch_ms"),
    }
}

/// Parses the bytes of a hop-state document and reads its four keys.
pub fn read_hop_state(bytes: &[u8]) -> (r: Option<HopStateFields>)
    ensures
        match r {
            Some(f) => hop_state_doc(bytes@) == Some(f@),
            None => hop_state_doc(bytes@) is None,
        },
{
    match parse(bytes) {
        Some(v) => Some(fields_of(&v)),
        None => None,
    }
}

/// The bytes of a file, where there is one.
pub open spec fn opt_bytes(file: Option<&[u8]>) -> Option<Seq<u8>> {
    match file {
        Some(b) => Some(b@),
        None => None,
    }
}

/// What the state file holds: nothing where it is missing or no JSON text.
pub open spec fn file_doc(file: Option<Seq<u8>>) -> Option<HopStateDoc> {
    match file {
        Some(b) => hop_state_doc(b),
        None => None,
    }
}

/// The published state of the hop plan, as far as it could be read.
#[derive(Debug, PartialEq, Eq)]
pub struct HopPlanSnapshot {
    pub order: Vec<u64>,
    pub randomized: bool,
    pub idx: u64,
    pub next_epoch_ms: u64,
}

/// The unsigned integers among `items`, in order.
pub open spec fn present(items: Seq<Option<u64>>) -> Seq<u64>
    decreases items.len(),
{
    if items.len() == 0 {
        Seq::empty()
    } else {
        match items.last() {
            Some(x) => present(items.drop_last()).push(x),
            None => present(items.drop_last()),
        }
    }
}

impl HopPlanSnapshot {
    /// The order that a document gives: the integers of its `order` array,
    /// and nothing where there is no document or no such array.
    pub open spec fn order_of(doc: Option<HopStateDoc>) -> Seq<u64> {
        match doc {
            Some(d) => match d.order {
                Some(a) => present(a),
                None => Seq::empty(),
            },
            None => Seq::empty(),
        }
    }

    /// Whether a document says that the order is randomized; a document
    /// that does not say is taken to deny it.
    pub open spec fn randomized_of(doc: Option<HopStateDoc>) -> bool {
        match doc {
            Some(d) => match d.randomized {
                Some(b) => b,
                None => false,
            },
            None => false,
        }
    }

    /// The position that a document gives, and zero where it gives none.
    pub open spec fn idx_of(doc: Option<HopStateDoc>) -> u64 {
        match doc {
            Some(d) => match d.idx {
                Some(i) => i,
                None => 0,
            },
            None => 0,
        }
    }

    /// The time of the next rotation that a document gives, and zero where
    /// it gives none.
    pub open spec fn next_epoch_of(doc: Option<HopStateDoc>) -> u64 {
        match doc {
            Some(d) => match d.next_epoch_ms {
                Some(t) => t,
                None => 0,
            },
            None => 0,
        }
    }

    /// Whether this snapshot is what `doc` gives, with a default in place of
    /// each field that `doc` lacks.
    pub open spec fn reads(&self, doc: Option<HopStateDoc>) -> bool {
        &&& self.order@ == Self::order_of(doc)
        &&& self.randomized == Self::randomized_of(doc)
        &&& self.idx == Self::idx_of(doc)
        &&& self.next_epoch_ms == Self::next_epoch_of(doc)
    }

    /// Whether the position lies within the order, as the scheduler that
    /// publishes the state keeps it. A snapshot is read as it is found, so
    /// this need not hold of it.
    pub open spec fn consistent(&self) -> bool {
        self.order@.len() > 0 ==> self.idx < self.order@.len()
    }

    /// Whether the position lies within the order.
    pub fn is_consistent(&self) -> (r: bool)
        ensures
            r == self.consistent(),
    {
        self.order.len() == 0 || self.idx < self.order.len() as u64
    }

    /// The snapshot of a state that was never published.
    pub fn empty() -> (r: HopPlanSnapshot)
        ensures
            r.reads(None),
    {
        HopPlanSnapshot { order: Vec::new(), randomized: false, idx: 0, next_epoch_ms: 0 }
    }

    /// The snapshot that the fields of a parsed document give.
    pub fn from_fields(fields: &Option<HopStateFields>) -> (r: HopPlanSnapshot)
        ensures
            r.reads(
                match fields {
                    Some(f) => Some(f@),
                    None => None,
                },
            ),
    {
        match fields {
            None => Self::empty(),
            Some(f) => {
                let mut order: Vec<u64> = Vec::new();
                match &f.order {
                    Some(a) => {
                        let mut i: usize = 0;
                        while i < a.len()
                            invariant
                                i <= a.len(),
                                order@ == present(a@.subrange(0, i as int)),
                            decreases a.len() - i,
                        {
                            proof {
                                assert(a@.subrange(0, i + 1).drop_last() =~= a@.subrange(
                                    0,
                                    i as int,
                                ));
                            }
                            match a[i] {
                                Some(x) => {
                                    order.push(x);
                                },
                                None => {},
                            }
                            i += 1;
                        }
                        proof {
                            assert(a@.subrange(0, a.len() as int) =~= a@);
                        }
                    },
                    None => {},
                }
                HopPlanSnapshot {
                    order,
                    randomized: match f.randomized {
                        Some(b) => b,
                        None => false,
                    },
                    idx: match f.idx {
                        Some(i) => i,
                        None => 0,
                    },
                    next_epoch_ms: match f.next_epoch_ms {
                        Some(t) => t,
                        None => 0,
                    },
                }
            },
        }
    }

    /// The snapshot that the bytes of the state file give; a missing file, or
    /// one that is no JSON text, gives the empty snapshot.
    pub fn load(file: Option<&[u8]>) -> (r: HopPlanSnapshot)
        ensures
            r.reads(file_doc(opt_bytes(file))),
    {
        match file {
            None => Self::empty(),
            Some(bytes) => {
                let fields = read_hop_state(bytes);
                Self::from_fields(&fields)
            },
        }
    }
}

} // verus!
