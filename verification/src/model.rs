//! The program model: a name, the registers and the instructions in order.
use vstd::prelude::*;
use crate::instruction::{insts_view, lemma_view_push, Instruction, InstructionView};
use crate::registry::{
    classical_views, declared_in, declares_qubit, declares_result, quantum_views,
    ClassicalRegister, QuantumRegister, RegisterView,
};

verus! {

/// A program as the contracts see it.
pub struct ModelView {
    pub name: Seq<char>,
    pub registers: Seq<RegisterView>,
    pub qubits: Seq<RegisterView>,
    pub instructions: Seq<InstructionView>,
}

/// Whether every operand of `inst`, and of the instructions inside it, is the
/// identifier of a slot of the registers given: of `qubits` where a qubit is meant, of
/// `results` where a result is meant.
pub open spec fn operands_declared(
    qubits: Seq<RegisterView>,
    results: Seq<RegisterView>,
    inst: InstructionView,
) -> bool
    decreases inst,
{
    match inst {
        InstructionView::Single { gate, qubit } => declared_in(qubits, qubit),
        InstructionView::Controlled { gate, control, target } => declared_in(qubits, control)
            && declared_in(qubits, target),
        InstructionView::Rotated { axis, theta, qubit } => declared_in(qubits, qubit),
        InstructionView::Measured { qubit, target } => declared_in(qubits, qubit) && declared_in(
            results,
            target,
        ),
        InstructionView::If { condition, one, zero } => declared_in(results, condition)
            && all_declared(qubits, results, one) && all_declared(qubits, results, zero),
    }
}

/// Whether `operands_declared` holds of each of `insts`.
pub open spec fn all_declared(
    qubits: Seq<RegisterView>,
    results: Seq<RegisterView>,
    insts: Seq<InstructionView>,
) -> bool
    decreases insts,
{
    forall|k: int|
        0 <= k < insts.len() ==> operands_declared(qubits, results, #[trigger] insts[k])
}

impl ModelView {
    /// Whether every operand of `inst`, and of the instructions inside it, names a
    /// slot of this program.
    pub open spec fn admits(self, inst: InstructionView) -> bool {
        operands_declared(self.qubits, self.registers, inst)
    }

    /// Whether the program admits each of `insts`.
    pub open spec fn admits_all(self, insts: Seq<InstructionView>) -> bool {
        all_declared(self.qubits, self.registers, insts)
    }

    /// Whether the program's own instructions name its own slots only.
    pub open spec fn well_formed(self) -> bool {
        self.admits_all(self.instructions)
    }

    /// The program with `inst` behind its instructions.
    pub open spec fn add_inst(self, inst: InstructionView) -> ModelView {
        ModelView { instructions: self.instructions.push(inst), ..self }
    }
}

/// A program: its name, its registers, and its instructions in the order in which
/// they run.
#[derive(Debug)]
pub struct SemanticModel {
    pub name: String,
    pub registers: Vec<ClassicalRegister>,
    pub qubits: Vec<QuantumRegister>,
    pub instructions: Vec<Instruction>,
}

impl View for SemanticModel {
    type V = ModelView;

    open spec fn view(&self) -> ModelView {
        ModelView {
            name: self.name@,
            registers: classical_views(self.registers@),
            qubits: quantum_views(self.qubits@),
            instructions: insts_view(self.instructions@),
        }
    }
}

impl SemanticModel {
    /// The program called `name` over the given registers, with no instruction yet.
    pub fn new(name: String, registers: Vec<ClassicalRegister>, qubits: Vec<QuantumRegister>) -> (m:
        Self)
        ensures
            m@ == (ModelView {
                name: name@,
                registers: classical_views(registers@),
                qubits: quantum_views(qubits@),
                instructions: Seq::empty(),
            }),
    {
        let m = SemanticModel { name, registers, qubits, instructions: Vec::new() };
        assert(m@.instructions =~= Seq::empty());
        m
    }

    /// Puts `inst` behind the instructions that the program has; those stay as they
    /// are.
    pub fn add_inst(&mut self, inst: Instruction)
        ensures
            final(self)@ == old(self)@.add_inst(inst@),
    {
        proof {
            lemma_view_push(self.instructions@, inst);
        }
        self.instructions.push(inst);
    }

    /// Whether every operand of `inst`, and of the instructions inside it, names a
    /// slot of this program.
    pub fn admits(&self, inst: &Instruction) -> (r: bool)
        ensures
            r == self@.admits(inst@),
        decreases inst,
    {
        match inst {
            Instruction::Cx(c) | Instruction::Cz(c) => declares_qubit(
                &self.qubits,
                c.control.as_str(),
            ) && declares_qubit(&self.qubits, c.target.as_str()),
            Instruction::H(s)
            | Instruction::Reset(s)
            | Instruction::S(s)
            | Instruction::SAdj(s)
            | Instruction::T(s)
            | Instruction::TAdj(s)
            | Instruction::X(s)
            | Instruction::Y(s)
            | Instruction::Z(s) => declares_qubit(&self.qubits, s.qubit.as_str()),
            Instruction::Rx(r) | Instruction::Ry(r) | Instruction::Rz(r) => declares_qubit(
                &self.qubits,
                r.qubit.as_str(),
            ),
            Instruction::M(m) => declares_qubit(&self.qubits, m.qubit.as_str())
                && declares_result(&self.registers, m.target.as_str()),
            Instruction::If(c) => declares_result(&self.registers, c.condition.as_str())
                && self.admits_all(&c.one) && self.admits_all(&c.zero),
        }
    }

    /// Whether the program admits each of `insts`.
    pub fn admits_all(&self, insts: &Vec<Instruction>) -> (r: bool)
        ensures
            r == self@.admits_all(insts_view(insts@)),
        decreases insts,
    {
        let ghost views = insts_view(insts@);
        let mut k: usize = 0;
        while k < insts.len()
            invariant
                k <= insts.len(),
                views == insts_view(insts@),
                forall|j: int| 0 <= j < k ==> self@.admits(#[trigger] views[j]),
            decreases insts.len() - k,
        {
            if !self.admits(&insts[k]) {
                assert(!self@.admits(views[k as int]));
                return false;
            }
            k = k + 1;
        }
        true
    }

    /// Whether the program's own instructions name its own slots only.
    pub fn is_well_formed(&self) -> (r: bool)
        ensures
            r == self@.well_formed(),
    {
        self.admits_all(&self.instructions)
    }
}

} // verus!
