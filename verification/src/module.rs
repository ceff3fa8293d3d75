//! A program with a fixed number of qubit and result slots.
use vstd::prelude::*;
use crate::builder::{max_slots, Builder, BuilderView};
use crate::error::Error;
use crate::reference::{Qubit, Ref, RefKind};

verus! {

/// A program with one register of qubits and one of results, and the builder through
/// which it grows.
pub struct SimpleModule {
    builder: Builder,
}

impl View for SimpleModule {
    type V = BuilderView;

    closed spec fn view(&self) -> BuilderView {
        self.builder@
    }
}

impl SimpleModule {
    /// What holds of every module; see `BuilderView::wf`.
    pub open spec fn wf(&self) -> bool {
        self@.wf()
    }

    /// A new program called `name` with `num_qubits` qubit slots and `num_results`
    /// result slots, either of which may be zero. It has no instruction, no open
    /// conditional, and nobody holds it.
    ///
    /// The call fails with `AllocationError` where one of the two sizes is more than
    /// `max_slots`.
    pub fn new(name: String, num_qubits: u64, num_results: u64) -> (r: Result<SimpleModule, Error>)
        ensures
            match r {
                Ok(m) => {
                    &&& num_qubits <= max_slots()
                    &&& num_results <= max_slots()
                    &&& m.wf()
                    &&& m@ == BuilderView::fresh(name@, num_qubits as nat, num_results as nat)
                    &&& m@.qubit_refs() == Seq::new(
                        num_qubits as nat,
                        |i: int| Qubit { index: i as u64 },
                    )
                    &&& m@.result_refs() == Seq::new(
                        num_results as nat,
                        |i: int| Ref(RefKind::Result { index: i as u64 }),
                    )
                },
                Err(e) => e == Error::AllocationError && (num_qubits > max_slots() || num_results
                    > max_slots()),
            },
    {
        match Builder::new(name, num_qubits, num_results) {
            Ok(builder) => Ok(SimpleModule { builder }),
            Err(e) => Err(e),
        }
    }

    /// The references to the program's qubit slots, in the order of their indices:
    /// as many as the program was made with, the same at every call.
    ///
    /// The call fails with `ConcurrentAccess` while a writer holds the model.
    pub fn qubits(&self) -> (r: Result<Vec<Qubit>, Error>)
        requires
            self.wf(),
        ensures
            match r {
                Ok(refs) => self@.access.readable() && refs@ == self@.qubit_refs(),
                Err(e) => e == Error::ConcurrentAccess && !self@.access.readable(),
            },
    {
        self.builder.qubits()
    }

    /// The references to the program's result slots, in the order of their indices:
    /// as many as the program was made with, the same at every call.
    ///
    /// The call fails with `ConcurrentAccess` while a writer holds the model.
    pub fn results(&self) -> (r: Result<Vec<Ref>, Error>)
        requires
            self.wf(),
        ensures
            match r {
                Ok(refs) => self@.access.readable() && refs@ == self@.result_refs(),
                Err(e) => e == Error::ConcurrentAccess && !self@.access.readable(),
            },
    {
        self.builder.results()
    }

    /// The reference to the qubit slot `index`; see `Builder::qubit`.
    pub fn qubit(&self, index: u64) -> (r: Result<Qubit, Error>)
        requires
            self.wf(),
        ensures
            match r {
                Ok(q) => self@.access.readable() && q.index == index && self@.has_qubit(q),
                Err(e) => e == if !self@.access.readable() {
                    Error::ConcurrentAccess
                } else {
                    Error::InvalidOperand
                } && (!self@.access.readable() || index >= self@.num_qubits()),
            },
    {
        self.builder.qubit(index)
    }

    /// The reference to the result slot `index`; see `Builder::result`.
    pub fn result(&self, index: u64) -> (r: Result<Ref, Error>)
        requires
            self.wf(),
        ensures
            match r {
                Ok(res) => self@.access.readable() && res.index() == index && self@.has_result(
                    res,
                ),
                Err(e) => e == if !self@.access.readable() {
                    Error::ConcurrentAccess
                } else {
                    Error::InvalidOperand
                } && (!self@.access.readable() || index >= self@.num_results()),
            },
    {
        self.builder.result(index)
    }

    /// The builder, on loan: what is done to it is done to this program.
    pub fn builder(&mut self) -> (b: &mut Builder)
        ensures
            b@ == old(self)@,
            final(self)@ == final(b)@,
    {
        &mut self.builder
    }

    /// The text of the program; see `Builder::ir`.
    pub fn ir(&self) -> (r: Result<String, Error>)
        requires
            self.wf(),
        ensures
            match r {
                Ok(text) => self@.ir() == Ok::<Seq<char>, Error>(text@),
                Err(e) => self@.ir() == Err::<Seq<char>, Error>(e),
            },
    {
        self.builder.ir()
    }

    /// The program as object code. There is no such form yet: the call fails with
    /// `Unsupported`.
    pub fn bitcode(&self) -> (r: Result<Vec<u8>, Error>)
        ensures
            r matches Err(e) && e == Error::Unsupported,
    {
        Err(Error::Unsupported)
    }
}

} // verus!
