//! References to the slots of a program, and the identifiers they stand for.
use vstd::prelude::*;
use crate::registry::{slot_id, slot_name};

verus! {

/// The name of the register that holds a program's qubits.
pub open spec fn qubit_name() -> Seq<char> {
    "qubit"@
}

/// The name of the register that holds a program's results.
pub open spec fn result_name() -> Seq<char> {
    "result"@
}

/// The identifier of the qubit slot `index`.
pub open spec fn qubit_id(index: u64) -> Seq<char> {
    slot_id(qubit_name(), index as nat)
}

/// The identifier of the result slot `index`.
pub open spec fn result_id(index: u64) -> Seq<char> {
    slot_id(result_name(), index as nat)
}

/// A reference to one qubit slot, by its index.
#[derive(Clone, Copy, Debug, PartialEq, Eq, Structural)]
pub struct Qubit {
    pub index: u64,
}

impl Qubit {
    /// The identifier of the slot referred to.
    pub fn id(&self) -> (id: String)
        ensures
            id@ == qubit_id(self.index),
    {
        slot_name("qubit", self.index)
    }
}

/// What a reference other than to a qubit refers to.
#[derive(Clone, Copy, Debug, PartialEq, Eq, Structural)]
pub enum RefKind {
    /// The result slot `index`.
    Result { index: u64 },
}

/// A reference to one result slot.
#[derive(Clone, Copy, Debug, PartialEq, Eq, Structural)]
pub struct Ref(pub RefKind);

impl Ref {
    /// The index of the slot referred to.
    pub open spec fn index(self) -> u64 {
        self.0->index
    }

    /// The identifier of the slot referred to.
    pub fn id(&self) -> (id: String)
        ensures
            id@ == result_id(self.index()),
    {
        let Ref(RefKind::Result { index }) = self;
        slot_name("result", *index)
    }
}

} // verus!
