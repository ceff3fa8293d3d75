//! The instruction set: gates, rotations, measurement and the conditional.
use vstd::prelude::*;

verus! {

/// The gates that act on one qubit, and the reset.
pub enum SingleGate {
    H,
    X,
    Y,
    Z,
    S,
    SAdj,
    T,
    TAdj,
    Reset,
}

/// The gates that act on a target qubit under the control of another.
pub enum ControlledGate {
    Cx,
    Cz,
}

/// The rotations, by the axis they turn about.
pub enum Rotation {
    Rx,
    Ry,
    Rz,
}

/// An instruction as the contracts see it: identifiers are strings of characters, an
/// angle is the bit pattern of a 64-bit IEEE 754 number, and the bodies of a
/// conditional are sequences of instructions.
#[allow(inconsistent_fields)]
pub enum InstructionView {
    Single { gate: SingleGate, qubit: Seq<char> },
    Controlled { gate: ControlledGate, control: Seq<char>, target: Seq<char> },
    Rotated { axis: Rotation, theta: u64, qubit: Seq<char> },
    Measured { qubit: Seq<char>, target: Seq<char> },
    If { condition: Seq<char>, one: Seq<InstructionView>, zero: Seq<InstructionView> },
}

/// The operand of a gate on one qubit.
#[derive(Clone, Debug, PartialEq, Eq)]
pub struct Single {
    pub qubit: String,
}

impl Single {
    /// The operand `qubit`.
    pub fn new(qubit: String) -> (r: Self)
        ensures
            r.qubit == qubit,
    {
        Single { qubit }
    }
}

/// The operands of a controlled gate.
#[derive(Clone, Debug, PartialEq, Eq)]
pub struct Controlled {
    pub control: String,
    pub target: String,
}

impl Controlled {
    /// The operands `control` and `target`.
    pub fn new(control: String, target: String) -> (r: Self)
        ensures
            r.control == control,
            r.target == target,
    {
        Controlled { control, target }
    }
}

/// The operands of a rotation. The angle, in radians, is held as the bit pattern of
/// a 64-bit IEEE 754 number; no angle is refused.
#[derive(Clone, Debug, PartialEq, Eq)]
pub struct Rotated {
    pub theta: u64,
    pub qubit: String,
}

impl Rotated {
    /// The rotation of `qubit` by the angle whose bit pattern is `theta`.
    pub fn new(theta: u64, qubit: String) -> (r: Self)
        ensures
            r.theta == theta,
            r.qubit == qubit,
    {
        Rotated { theta, qubit }
    }
}

/// The operands of a measurement: the qubit measured and the result slot written.
#[derive(Clone, Debug, PartialEq, Eq)]
pub struct Measured {
    pub qubit: String,
    pub target: String,
}

impl Measured {
    /// The measurement of `qubit` into `target`.
    pub fn new(qubit: String, target: String) -> (r: Self)
        ensures
            r.qubit == qubit,
            r.target == target,
    {
        Measured { qubit, target }
    }
}

/// A conditional: the result slot that decides, the instructions run when it holds
/// one, and those run when it holds zero.
#[derive(Debug, PartialEq, Eq)]
pub struct If {
    pub condition: String,
    pub one: Vec<Instruction>,
    pub zero: Vec<Instruction>,
}

impl If {
    /// The conditional on `condition` with the bodies `one` and `zero`.
    pub fn new(condition: String, one: Vec<Instruction>, zero: Vec<Instruction>) -> (r: Self)
        ensures
            r.condition == condition,
            r.one == one,
            r.zero == zero,
    {
        If { condition, one, zero }
    }
}

/// One instruction of a program.
#[derive(Debug, PartialEq, Eq)]
pub enum Instruction {
    Cx(Controlled),
    Cz(Controlled),
    H(Single),
    M(Measured),
    Reset(Single),
    Rx(Rotated),
    Ry(Rotated),
    Rz(Rotated),
    S(Single),
    SAdj(Single),
    T(Single),
    TAdj(Single),
    X(Single),
    Y(Single),
    Z(Single),
    If(If),
}

/// What the contracts see of `inst`.
pub open spec fn inst_view(inst: Instruction) -> InstructionView
    decreases inst,
{
    match inst {
        Instruction::Cx(c) => InstructionView::Controlled {
            gate: ControlledGate::Cx,
            control: c.control@,
            target: c.target@,
        },
        Instruction::Cz(c) => InstructionView::Controlled {
            gate: ControlledGate::Cz,
            control: c.control@,
            target: c.target@,
        },
        Instruction::H(s) => InstructionView::Single { gate: SingleGate::H, qubit: s.qubit@ },
        Instruction::M(m) => InstructionView::Measured { qubit: m.qubit@, target: m.target@ },
        Instruction::Reset(s) => InstructionView::Single {
            gate: SingleGate::Reset,
            qubit: s.qubit@,
        },
        Instruction::Rx(r) => InstructionView::Rotated {
            axis: Rotation::Rx,
            theta: r.theta,
            qubit: r.qubit@,
        },
        Instruction::Ry(r) => InstructionView::Rotated {
            axis: Rotation::Ry,
            theta: r.theta,
            qubit: r.qubit@,
        },
        Instruction::Rz(r) => InstructionView::Rotated {
            axis: Rotation::Rz,
            theta: r.theta,
            qubit: r.qubit@,
        },
        Instruction::S(s) => InstructionView::Single { gate: SingleGate::S, qubit: s.qubit@ },
        Instruction::SAdj(s) => InstructionView::Single {
            gate: SingleGate::SAdj,
            qubit: s.qubit@,
        },
        Instruction::T(s) => InstructionView::Single { gate: SingleGate::T, qubit: s.qubit@ },
        Instruction::TAdj(s) => InstructionView::Single {
            gate: SingleGate::TAdj,
            qubit: s.qubit@,
        },
        Instruction::X(s) => InstructionView::Single { gate: SingleGate::X, qubit: s.qubit@ },
        Instruction::Y(s) => InstructionView::Single { gate: SingleGate::Y, qubit: s.qubit@ },
        Instruction::Z(s) => InstructionView::Single { gate: SingleGate::Z, qubit: s.qubit@ },
        Instruction::If(c) => InstructionView::If {
            condition: c.condition@,
            one: insts_view(c.one@),
            zero: insts_view(c.zero@),
        },
    }
}

/// What the contracts see of a sequence of instructions: each one's view, in order.
pub open spec fn insts_view(insts: Seq<Instruction>) -> Seq<InstructionView>
    decreases insts,
{
    Seq::new(
        insts.len(),
        |k: int|
            if 0 <= k < insts.len() {
                inst_view(insts[k])
            } else {
                arbitrary()
            },
    )
}

impl View for Instruction {
    type V = InstructionView;

    open spec fn view(&self) -> InstructionView {
        inst_view(*self)
    }
}

/// The view of a sequence with one more instruction is the view of the sequence with
/// that instruction's view behind it.
pub proof fn lemma_view_push(insts: Seq<Instruction>, inst: Instruction)
    ensures
        insts_view(insts.push(inst)) == insts_view(insts).push(inst@),
{
    assert(insts_view(insts.push(inst)) =~= insts_view(insts).push(inst@));
}

} // verus!
