//! The builder: the one place where a program grows.
//!
//! A builder owns a program model whose registers are fixed when it is made. Every
//! call that changes the program puts one instruction behind the sequence that is
//! current: the program's own, or, while conditionals are open, the body that the
//! innermost of them is collecting. Nothing that was put there is changed or taken
//! away again.
use vstd::prelude::*;
use vstd::string::*;
use crate::access::Access;
use crate::emit::{ir_text, write_ir};
use crate::error::Error;
use crate::instruction::{insts_view, lemma_view_push, If, Instruction, InstructionView};
use crate::model::{ModelView, SemanticModel};
use crate::reference::{qubit_id, qubit_name, result_id, result_name, Qubit, Ref, RefKind};
use crate::registry::{
    declared_in, declares_result, lemma_declares_own_slots, ClassicalRegister, QuantumRegister,
    RegisterView,
};

verus! {

/// The most slots that a register can have on this machine: as many as a list of
/// references to them can hold. A reference takes eight bytes, and one allocation no
/// more than half of the address space.
pub open spec fn max_slots() -> nat {
    (usize::MAX / 16) as nat
}

/// An open conditional as the contracts see it.
pub struct ScopeView {
    pub condition: Seq<char>,
    pub one: Seq<InstructionView>,
    pub zero: Seq<InstructionView>,
    pub in_zero: bool,
}

impl ScopeView {
    /// The body that the conditional is collecting.
    pub open spec fn current(self) -> Seq<InstructionView> {
        if self.in_zero {
            self.zero
        } else {
            self.one
        }
    }

    /// The conditional with `inst` behind the body that it is collecting.
    pub open spec fn push(self, inst: InstructionView) -> ScopeView {
        if self.in_zero {
            ScopeView { zero: self.zero.push(inst), ..self }
        } else {
            ScopeView { one: self.one.push(inst), ..self }
        }
    }

    /// The instruction that the conditional becomes when it is closed.
    pub open spec fn conditional(self) -> InstructionView {
        InstructionView::If { condition: self.condition, one: self.one, zero: self.zero }
    }
}

/// A builder as the contracts see it: the program, the conditionals that are open,
/// outermost first, and who holds the program.
pub struct BuilderView {
    pub model: ModelView,
    pub scopes: Seq<ScopeView>,
    pub access: Access,
}

impl BuilderView {
    /// The builder of a new program called `name` with `qubits` qubit slots and
    /// `results` result slots.
    pub open spec fn fresh(name: Seq<char>, qubits: nat, results: nat) -> BuilderView {
        BuilderView {
            model: ModelView {
                name,
                registers: seq![RegisterView { name: result_name(), size: results }],
                qubits: seq![RegisterView { name: qubit_name(), size: qubits }],
                instructions: Seq::empty(),
            },
            scopes: Seq::empty(),
            access: Access::Idle,
        }
    }

    /// What holds of every builder: the program has one register of qubits and one
    /// of results, under their fixed names and of no more than `max_slots` slots
    /// each; every operand in the program and in the open conditionals names a
    /// slot of these registers.
    pub open spec fn wf(self) -> bool {
        &&& self.model.qubits.len() == 1
        &&& self.model.qubits[0].name == qubit_name()
        &&& self.model.qubits[0].size <= max_slots()
        &&& self.model.registers.len() == 1
        &&& self.model.registers[0].name == result_name()
        &&& self.model.registers[0].size <= max_slots()
        &&& self.model.well_formed()
        &&& forall|k: int|
            0 <= k < self.scopes.len() ==> self.model.admits(
                (#[trigger] self.scopes[k]).conditional(),
            )
        &&& self.access.wf()
    }

    /// The number of qubit slots.
    pub open spec fn num_qubits(self) -> nat {
        self.model.qubits[0].size
    }

    /// The number of result slots.
    pub open spec fn num_results(self) -> nat {
        self.model.registers[0].size
    }

    /// Whether `qubit` refers to a slot that the program has.
    pub open spec fn has_qubit(self, qubit: Qubit) -> bool {
        qubit.index < self.num_qubits()
    }

    /// Whether `result` refers to a slot that the program has.
    pub open spec fn has_result(self, result: Ref) -> bool {
        result.index() < self.num_results()
    }

    /// The references to the program's qubit slots, by index.
    pub open spec fn qubit_refs(self) -> Seq<Qubit> {
        Seq::new(self.num_qubits(), |i: int| Qubit { index: i as u64 })
    }

    /// The references to the program's result slots, by index.
    pub open spec fn result_refs(self) -> Seq<Ref> {
        Seq::new(self.num_results(), |i: int| Ref(RefKind::Result { index: i as u64 }))
    }

    /// The sequence that the next instruction goes to: the body that the innermost
    /// open conditional is collecting, or the program's own where none is open.
    pub open spec fn current(self) -> Seq<InstructionView> {
        if self.scopes.len() == 0 {
            self.model.instructions
        } else {
            self.scopes.last().current()
        }
    }

    /// The builder with `inst` behind the current sequence.
    pub open spec fn append(self, inst: InstructionView) -> BuilderView {
        if self.scopes.len() == 0 {
            BuilderView { model: self.model.add_inst(inst), ..self }
        } else {
            BuilderView {
                scopes: self.scopes.update(self.scopes.len() - 1, self.scopes.last().push(inst)),
                ..self
            }
        }
    }

    /// The builder with one more conditional open, on `condition`, both bodies empty,
    /// collecting the body for the value one.
    pub open spec fn open(self, condition: Seq<char>) -> BuilderView {
        BuilderView {
            scopes: self.scopes.push(
                ScopeView { condition, one: Seq::empty(), zero: Seq::empty(), in_zero: false },
            ),
            ..self
        }
    }

    /// The builder whose innermost open conditional collects the body for the value
    /// zero.
    pub open spec fn switch(self) -> BuilderView {
        BuilderView {
            scopes: self.scopes.update(
                self.scopes.len() - 1,
                ScopeView { in_zero: true, ..self.scopes.last() },
            ),
            ..self
        }
    }

    /// The builder with its innermost open conditional closed: the conditional is
    /// one instruction behind the sequence that was current when it was opened.
    pub open spec fn close(self) -> BuilderView {
        (BuilderView { scopes: self.scopes.drop_last(), ..self }).append(
            self.scopes.last().conditional(),
        )
    }

    /// What a call that changes the program returns: it fails with
    /// `ConcurrentAccess` where anybody holds the model, else with `Unsupported`
    /// where the builder's state has no place for the call, else with
    /// `InvalidOperand` where an operand names no slot of the program.
    pub open spec fn verdict(self, supported: bool, valid: bool) -> Result<(), Error> {
        if !self.access.writable() {
            Err(Error::ConcurrentAccess)
        } else if !supported {
            Err(Error::Unsupported)
        } else if !valid {
            Err(Error::InvalidOperand)
        } else {
            Ok(())
        }
    }

    /// The builder after a call that returned `r` and, on success, put `inst` behind
    /// the current sequence: a call that fails changes nothing.
    pub open spec fn after(self, r: Result<(), Error>, inst: InstructionView) -> BuilderView {
        if r is Ok {
            self.append(inst)
        } else {
            self
        }
    }

    /// What a request for the program's text gives: no text while a writer holds the
    /// model or a conditional is open.
    pub open spec fn ir(self) -> Result<Seq<char>, Error> {
        if !self.access.readable() {
            Err(Error::ConcurrentAccess)
        } else if self.scopes.len() > 0 {
            Err(Error::EmissionError)
        } else {
            Ok(ir_text(self.model))
        }
    }
}

/// With one register of qubits under the fixed name, an identifier made from an
/// index names a qubit slot exactly when the index is below the register's size.
pub proof fn lemma_qubit_in_range(b: BuilderView, index: u64)
    requires
        b.wf(),
    ensures
        declared_in(b.model.qubits, qubit_id(index)) <==> index < b.num_qubits(),
{
    lemma_declares_own_slots(b.model.qubits[0], index as nat);
}

/// With one register of results under the fixed name, an identifier made from an
/// index names a result slot exactly when the index is below the register's size.
pub proof fn lemma_result_in_range(b: BuilderView, index: u64)
    requires
        b.wf(),
    ensures
        declared_in(b.model.registers, result_id(index)) <==> index < b.num_results(),
{
    lemma_declares_own_slots(b.model.registers[0], index as nat);
}

/// An open conditional: the result slot that decides, the two bodies as far as they
/// have been collected, and which of them is being collected.
struct Scope {
    condition: String,
    one: Vec<Instruction>,
    zero: Vec<Instruction>,
    in_zero: bool,
}

impl View for Scope {
    type V = ScopeView;

    closed spec fn view(&self) -> ScopeView {
        ScopeView {
            condition: self.condition@,
            one: insts_view(self.one@),
            zero: insts_view(self.zero@),
            in_zero: self.in_zero,
        }
    }
}

/// The builder of one program.
pub struct Builder {
    model: SemanticModel,
    scopes: Vec<Scope>,
    access: Access,
}

impl View for Builder {
    type V = BuilderView;

    closed spec fn view(&self) -> BuilderView {
        BuilderView {
            model: self.model@,
            scopes: Seq::new(self.scopes@.len(), |k: int| self.scopes@[k]@),
            access: self.access,
        }
    }
}

impl Builder {
    /// What holds of every builder; see `BuilderView::wf`.
    pub open spec fn wf(&self) -> bool {
        self@.wf()
    }

    /// The builder of a new program called `name` with `num_qubits` qubit slots and
    /// `num_results` result slots, either of which may be zero.
    ///
    /// The call fails with `AllocationError` where one of the two sizes is more than
    /// `max_slots`.
    pub fn new(name: String, num_qubits: u64, num_results: u64) -> (r: Result<Builder, Error>)
        ensures
            match r {
                Ok(b) => {
                    &&& num_qubits <= max_slots()
                    &&& num_results <= max_slots()
                    &&& b.wf()
                    &&& b@ == BuilderView::fresh(name@, num_qubits as nat, num_results as nat)
                },
                Err(e) => e == Error::AllocationError && (num_qubits > max_slots() || num_results
                    > max_slots()),
            },
    {
        let limit: u64 = (usize::MAX / 16) as u64;
        if num_qubits > limit || num_results > limit {
            return Err(Error::AllocationError);
        }
        let mut registers: Vec<ClassicalRegister> = Vec::new();
        registers.push(ClassicalRegister::new(String::from_str("result"), num_results));
        let mut qubits: Vec<QuantumRegister> = Vec::new();
        qubits.push(QuantumRegister::new(String::from_str("qubit"), num_qubits));
        let model = SemanticModel::new(name, registers, qubits);
        let b = Builder { model, scopes: Vec::new(), access: Access::Idle };
        proof {
            let fresh = BuilderView::fresh(name@, num_qubits as nat, num_results as nat);
            assert(b@.model.registers =~= fresh.model.registers);
            assert(b@.model.qubits =~= fresh.model.qubits);
            assert(b@.scopes =~= fresh.scopes);
        }
        Ok(b)
    }

    /// The program as it stands. The bodies of conditionals that are still open are
    /// not in it.
    pub fn model(&self) -> (m: &SemanticModel)
        ensures
            m@ == self@.model,
    {
        &self.model
    }

    /// How many conditionals are open.
    pub fn depth(&self) -> (n: usize)
        ensures
            n == self@.scopes.len(),
    {
        self.scopes.len()
    }

    /// Takes hold of the model for a reader, until `release`.
    ///
    /// The call fails with `ConcurrentAccess`, and changes nothing, while a writer
    /// holds the model or no further reader can be counted.
    pub fn try_borrow(&mut self) -> (r: Result<(), Error>)
        requires
            old(self).wf(),
        ensures
            final(self).wf(),
            match r {
                Ok(()) => old(self)@.access.with_reader() is Some && final(self)@ == (BuilderView {
                    access: old(self)@.access.with_reader()->0,
                    ..old(self)@
                }),
                Err(e) => e == Error::ConcurrentAccess && old(self)@.access.with_reader() is None
                    && final(self)@ == old(self)@,
            },
    {
        match self.access.admit_reader() {
            Some(next) => {
                self.access = next;
                Ok(())
            },
            None => Err(Error::ConcurrentAccess),
        }
    }

    /// Takes hold of the model for a writer, until `release`.
    ///
    /// The call fails with `ConcurrentAccess`, and changes nothing, while anybody
    /// holds the model.
    pub fn try_borrow_mut(&mut self) -> (r: Result<(), Error>)
        requires
            old(self).wf(),
        ensures
            final(self).wf(),
            match r {
                Ok(()) => old(self)@.access.writable() && final(self)@ == (BuilderView {
                    access: Access::Exclusive,
                    ..old(self)@
                }),
                Err(e) => e == Error::ConcurrentAccess && !old(self)@.access.writable()
                    && final(self)@ == old(self)@,
            },
    {
        match self.access.admit_writer() {
            Some(next) => {
                self.access = next;
                Ok(())
            },
            None => Err(Error::ConcurrentAccess),
        }
    }

    /// Lets go of the model for one holder: one reader fewer, or no writer. Where
    /// nobody holds the model nothing changes.
    pub fn release(&mut self)
        requires
            old(self).wf(),
        ensures
            final(self).wf(),
            final(self)@ == (BuilderView { access: old(self)@.access.released(), ..old(self)@ }),
    {
        self.access = self.access.release();
    }

    /// The references to the program's qubit slots, in the order of their indices.
    ///
    /// The call fails with `ConcurrentAccess` while a writer holds the model.
    pub fn qubits(&self) -> (r: Result<Vec<Qubit>, Error>)
        requires
            self.wf(),
        ensures
            match r {
                Ok(refs) => self@.access.readable() && refs@ == self@.qubit_refs(),
                Err(e) => e == Error::ConcurrentAccess && !self@.access.readable(),
            },
    {
        if !self.access.is_readable() {
            return Err(Error::ConcurrentAccess);
        }
        let size: u64 = self.model.qubits[0].size;
        let mut refs: Vec<Qubit> = Vec::new();
        let mut i: u64 = 0;
        while i < size
            invariant
                i <= size,
                refs@.len() == i,
                forall|j: int| 0 <= j < i ==> refs@[j] == (Qubit { index: j as u64 }),
            decreases size - i,
        {
            refs.push(Qubit { index: i });
            i = i + 1;
        }
        assert(refs@ =~= self@.qubit_refs());
        Ok(refs)
    }

    /// The reference to the qubit slot `index`.
    ///
    /// The call fails with `ConcurrentAccess` while a writer holds the model, else
    /// with `InvalidOperand` where the program has no such slot.
    pub fn qubit(&self, index: u64) -> (r: Result<Qubit, Error>)
        requires
            self.wf(),
        ensures
            match r {
                Ok(q) => self@.access.readable() && q.index == index && self@.has_qubit(q),
                Err(e) => e == if !self@.access.readable() {
                    Error::ConcurrentAccess
                } else {
                    Error::InvalidOperand
                } && (!self@.access.readable() || index >= self@.num_qubits()),
            },
    {
        if !self.access.is_readable() {
            Err(Error::ConcurrentAccess)
        } else if index < self.model.qubits[0].size {
            Ok(Qubit { index })
        } else {
            Err(Error::InvalidOperand)
        }
    }

    /// The reference to the result slot `index`.
    ///
    /// The call fails with `ConcurrentAccess` while a writer holds the model, else
    /// with `InvalidOperand` where the program has no such slot.
    pub fn result(&self, index: u64) -> (r: Result<Ref, Error>)
        requires
            self.wf(),
        ensures
            match r {
                Ok(res) => self@.access.readable() && res.index() == index && self@.has_result(
                    res,
                ),
                Err(e) => e == if !self@.access.readable() {
                    Error::ConcurrentAccess
                } else {
                    Error::InvalidOperand
                } && (!self@.access.readable() || index >= self@.num_results()),
            },
    {
        if !self.access.is_readable() {
            Err(Error::ConcurrentAccess)
        } else if index < self.model.registers[0].size {
            Ok(Ref(RefKind::Result { index }))
        } else {
            Err(Error::InvalidOperand)
        }
    }

    /// The references to the program's result slots, in the order of their indices.
    ///
    /// The call fails with `ConcurrentAccess` while a writer holds the model.
    pub fn results(&self) -> (r: Result<Vec<Ref>, Error>)
        requires
            self.wf(),
        ensures
            match r {
                Ok(refs) => self@.access.readable() && refs@ == self@.result_refs(),
                Err(e) => e == Error::ConcurrentAccess && !self@.access.readable(),
            },
    {
        if !self.access.is_readable() {
            return Err(Error::ConcurrentAccess);
        }
        let size: u64 = self.model.registers[0].size;
        let mut refs: Vec<Ref> = Vec::new();
        let mut i: u64 = 0;
        while i < size
            invariant
                i <= size,
                refs@.len() == i,
                forall|j: int|
                    0 <= j < i ==> refs@[j] == Ref(RefKind::Result { index: j as u64 }),
            decreases size - i,
        {
            refs.push(Ref(RefKind::Result { index: i }));
            i = i + 1;
        }
        assert(refs@ =~= self@.result_refs());
        Ok(refs)
    }

    /// The text of the program.
    ///
    /// The call fails with `ConcurrentAccess` while a writer holds the model, and
    /// with `EmissionError` while a conditional is open. Otherwise there is a text:
    /// what a builder has put into its program can be written out.
    pub fn ir(&self) -> (r: Result<String, Error>)
        requires
            self.wf(),
        ensures
            match r {
                Ok(text) => self@.ir() == Ok::<Seq<char>, Error>(text@),
                Err(e) => self@.ir() == Err::<Seq<char>, Error>(e),
            },
    {
        if !self.access.is_readable() {
            return Err(Error::ConcurrentAccess);
        }
        if self.scopes.len() > 0 {
            return Err(Error::EmissionError);
        }
        Ok(write_ir(&self.model))
    }

    /// Puts `inst`, which the program admits, behind the current sequence.
    fn push_current(&mut self, inst: Instruction)
        requires
            old(self).wf(),
            old(self)@.model.admits(inst@),
        ensures
            final(self).wf(),
            final(self)@ == old(self)@.append(inst@),
    {
        let ghost before = self@;
        match self.scopes.pop() {
            None => {
                self.model.add_inst(inst);
                assert(self@.scopes =~= before.scopes);
            },
            Some(scope) => {
                let mut scope = scope;
                proof {
                    assert(scope@ == before.scopes.last());
                    assert(before.model.admits(before.scopes.last().conditional()));
                    lemma_view_push(scope.one@, inst);
                    lemma_view_push(scope.zero@, inst);
                }
                if scope.in_zero {
                    scope.zero.push(inst);
                } else {
                    scope.one.push(inst);
                }
                assert(scope@ == before.scopes.last().push(inst@));
                self.scopes.push(scope);
                assert(self@.scopes =~= before.append(inst@).scopes);
                assert forall|k: int| 0 <= k < self@.scopes.len() implies self@.model.admits(
                    (#[trigger] self@.scopes[k]).conditional(),
                ) by {
                    if k < self@.scopes.len() - 1 {
                        assert(self@.scopes[k] == before.scopes[k]);
                    }
                }
            },
        }
    }

    /// Puts `inst` behind the current sequence.
    ///
    /// The call fails with `ConcurrentAccess` while anybody holds the model, else
    /// with `InvalidOperand` where an operand of `inst`, or of an instruction inside
    /// it, names no slot of the program. A call that fails changes nothing.
    pub fn add_inst(&mut self, inst: Instruction) -> (r: Result<(), Error>)
        requires
            old(self).wf(),
        ensures
            final(self).wf(),
            r == old(self)@.verdict(true, old(self)@.model.admits(inst@)),
            final(self)@ == old(self)@.after(r, inst@),
    {
        if !self.access.is_writable() {
            return Err(Error::ConcurrentAccess);
        }
        if !self.model.admits(&inst) {
            return Err(Error::InvalidOperand);
        }
        self.push_current(inst);
        Ok(())
    }

    /// Opens a conditional on the result slot `condition`: the instructions that
    /// follow go to its body for the value one.
    ///
    /// The call fails with `ConcurrentAccess` while anybody holds the model, else
    /// with `InvalidOperand` where `condition` names no result slot of the program.
    /// A call that fails changes nothing.
    pub fn open_branch(&mut self, condition: String) -> (r: Result<(), Error>)
        requires
            old(self).wf(),
        ensures
            final(self).wf(),
            r == old(self)@.verdict(true, declared_in(old(self)@.model.registers, condition@)),
            final(self)@ == if r is Ok {
                old(self)@.open(condition@)
            } else {
                old(self)@
            },
    {
        if !self.access.is_writable() {
            return Err(Error::ConcurrentAccess);
        }
        if !declares_result(&self.model.registers, condition.as_str()) {
            return Err(Error::InvalidOperand);
        }
        let ghost before = self@;
        let scope = Scope { condition, one: Vec::new(), zero: Vec::new(), in_zero: false };
        proof {
            assert(scope@.one =~= Seq::empty());
            assert(scope@.zero =~= Seq::empty());
        }
        self.scopes.push(scope);
        assert(self@.scopes =~= before.open(condition@).scopes);
        Ok(())
    }

    /// Turns the innermost open conditional to its body for the value zero: the
    /// instructions that follow go there.
    ///
    /// The call fails with `ConcurrentAccess` while anybody holds the model, else
    /// with `Unsupported` where no conditional is open or the innermost has been
    /// turned already. A call that fails changes nothing.
    pub fn switch_branch(&mut self) -> (r: Result<(), Error>)
        requires
            old(self).wf(),
        ensures
            final(self).wf(),
            r == old(self)@.verdict(
                old(self)@.scopes.len() > 0 && !old(self)@.scopes.last().in_zero,
                true,
            ),
            final(self)@ == if r is Ok {
                old(self)@.switch()
            } else {
                old(self)@
            },
    {
        if !self.access.is_writable() {
            return Err(Error::ConcurrentAccess);
        }
        let ghost before = self@;
        match self.scopes.pop() {
            None => Err(Error::Unsupported),
            Some(scope) => {
                let mut scope = scope;
                assert(scope@ == before.scopes.last());
                let turned = scope.in_zero;
                scope.in_zero = true;
                self.scopes.push(scope);
                if turned {
                    assert(self@.scopes =~= before.scopes);
                    Err(Error::Unsupported)
                } else {
                    assert(self@.scopes =~= before.switch().scopes);
                    assert forall|k: int| 0 <= k < self@.scopes.len() implies self@.model.admits(
                        (#[trigger] self@.scopes[k]).conditional(),
                    ) by {
                        assert(self@.scopes[k].conditional() == before.scopes[k].conditional());
                    }
                    Ok(())
                }
            },
        }
    }

    /// Closes the innermost open conditional: it becomes one instruction behind the
    /// sequence that was current when it was opened. Either body may be empty.
    ///
    /// The call fails with `ConcurrentAccess` while anybody holds the model, else
    /// with `Unsupported` where no conditional is open. A call that fails changes
    /// nothing.
    pub fn close_branch(&mut self) -> (r: Result<(), Error>)
        requires
            old(self).wf(),
        ensures
            final(self).wf(),
            r == old(self)@.verdict(old(self)@.scopes.len() > 0, true),
            final(self)@ == if r is Ok {
                old(self)@.close()
            } else {
                old(self)@
            },
    {
        if !self.access.is_writable() {
            return Err(Error::ConcurrentAccess);
        }
        let ghost before = self@;
        match self.scopes.pop() {
            None => {
                assert(self@.scopes =~= before.scopes);
                Err(Error::Unsupported)
            },
            Some(scope) => {
                assert(scope@ == before.scopes.last());
                assert(before.model.admits(before.scopes.last().conditional()));
                assert(self@.scopes =~= before.scopes.drop_last());
                assert forall|k: int| 0 <= k < self@.scopes.len() implies self@.model.admits(
                    (#[trigger] self@.scopes[k]).conditional(),
                ) by {
                    assert(self@.scopes[k] == before.scopes[k]);
                }
                let inst = Instruction::If(If::new(scope.condition, scope.one, scope.zero));
                assert(inst@ == before.scopes.last().conditional());
                self.push_current(inst);
                Ok(())
            },
        }
    }
}

} // verus!
