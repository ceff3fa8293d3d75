//! The basic quantum instruction set, as calls on a builder.
use vstd::prelude::*;
use crate::builder::{lemma_qubit_in_range, lemma_result_in_range, Builder, BuilderView};
use crate::error::Error;
use crate::reference::{qubit_id, result_id, Qubit, Ref};
use crate::instruction::{
    insts_view, Controlled, ControlledGate, If, Instruction, InstructionView, Measured, Rotated,
    Rotation, Single, SingleGate,
};

verus! {

/// What the contracts see of `gate` applied to `qubit`.
pub open spec fn single(gate: SingleGate, qubit: Qubit) -> InstructionView {
    InstructionView::Single { gate, qubit: qubit_id(qubit.index) }
}

/// What the contracts see of `gate` applied to `target` under the control of
/// `control`.
pub open spec fn controlled(
    gate: ControlledGate,
    control: Qubit,
    target: Qubit,
) -> InstructionView {
    InstructionView::Controlled {
        gate,
        control: qubit_id(control.index),
        target: qubit_id(target.index),
    }
}

/// What the contracts see of the rotation of `qubit` about `axis` by the angle with
/// the bit pattern `theta`.
pub open spec fn rotated(axis: Rotation, theta: u64, qubit: Qubit) -> InstructionView {
    InstructionView::Rotated { axis, theta, qubit: qubit_id(qubit.index) }
}

/// What the contracts see of the measurement of `qubit` into `result`.
pub open spec fn measured(qubit: Qubit, result: Ref) -> InstructionView {
    InstructionView::Measured { qubit: qubit_id(qubit.index), target: result_id(result.index()) }
}

/// What the contracts see of the conditional on `result` with the bodies `one` and
/// `zero`.
pub open spec fn conditional(
    result: Ref,
    one: Seq<Instruction>,
    zero: Seq<Instruction>,
) -> InstructionView {
    InstructionView::If {
        condition: result_id(result.index()),
        one: insts_view(one),
        zero: insts_view(zero),
    }
}

/// The instruction set on a builder that it has on loan.
///
/// Each call names its operands by reference. It fails with `ConcurrentAccess` while
/// anybody holds the model, else with `InvalidOperand` where a reference is to a slot
/// that the program does not have; a call that fails changes nothing. Otherwise it
/// puts its one instruction behind the builder's current sequence.
pub struct BasicQisBuilder<'a> {
    pub builder: &'a mut Builder,
}

impl<'a> View for BasicQisBuilder<'a> {
    type V = BuilderView;

    open spec fn view(&self) -> BuilderView {
        self.builder@
    }
}

impl<'a> BasicQisBuilder<'a> {
    /// What holds of the builder on loan; see `BuilderView::wf`.
    pub open spec fn wf(&self) -> bool {
        self@.wf()
    }

    /// The instruction set on `builder`, for as long as the result lives.
    pub fn new(builder: &'a mut Builder) -> (q: BasicQisBuilder<'a>)
        requires
            old(builder).wf(),
        ensures
            q.wf(),
            q@ == old(builder)@,
            *final(q.builder) == *final(builder),
    {
        BasicQisBuilder { builder }
    }

    /// Puts `inst` behind the current sequence; see `Builder::add_inst`.
    pub fn add_inst(&mut self, inst: Instruction) -> (r: Result<(), Error>)
        requires
            old(self).wf(),
        ensures
            final(self).wf(),
            *final(final(self).builder) == *final(old(self).builder),
            r == old(self)@.verdict(true, old(self)@.model.admits(inst@)),
            final(self)@ == old(self)@.after(r, inst@),
    {
        self.builder.add_inst(inst)
    }

    /// Controlled X: flips `target` where `control` is one.
    pub fn cx(&mut self, control: &Qubit, target: &Qubit) -> (r: Result<(), Error>)
        requires
            old(self).wf(),
        ensures
            final(self).wf(),
            *final(final(self).builder) == *final(old(self).builder),
            r == old(self)@.verdict(
                true,
                old(self)@.has_qubit(*control) && old(self)@.has_qubit(*target),
            ),
            final(self)@ == old(self)@.after(
                r,
                controlled(ControlledGate::Cx, *control, *target),
            ),
    {
        proof {
            lemma_qubit_in_range(self@, control.index);
            lemma_qubit_in_range(self@, target.index);
        }
        let controlled = Controlled::new(control.id(), target.id());
        self.add_inst(Instruction::Cx(controlled))
    }

    /// Controlled Z: turns the phase of `target` where `control` is one.
    pub fn cz(&mut self, control: &Qubit, target: &Qubit) -> (r: Result<(), Error>)
        requires
            old(self).wf(),
        ensures
            final(self).wf(),
            *final(final(self).builder) == *final(old(self).builder),
            r == old(self)@.verdict(
                true,
                old(self)@.has_qubit(*control) && old(self)@.has_qubit(*target),
            ),
            final(self)@ == old(self)@.after(
                r,
                controlled(ControlledGate::Cz, *control, *target),
            ),
    {
        proof {
            lemma_qubit_in_range(self@, control.index);
            lemma_qubit_in_range(self@, target.index);
        }
        let controlled = Controlled::new(control.id(), target.id());
        self.add_inst(Instruction::Cz(controlled))
    }

    /// Hadamard gate on `qubit`.
    pub fn h(&mut self, qubit: &Qubit) -> (r: Result<(), Error>)
        requires
            old(self).wf(),
        ensures
            final(self).wf(),
            *final(final(self).builder) == *final(old(self).builder),
            r == old(self)@.verdict(true, old(self)@.has_qubit(*qubit)),
            final(self)@ == old(self)@.after(r, single(SingleGate::H, *qubit)),
    {
        proof {
            lemma_qubit_in_range(self@, qubit.index);
        }
        let single = Single::new(qubit.id());
        self.add_inst(Instruction::H(single))
    }

    /// Measurement of `qubit`: its value is written into the slot `result`.
    pub fn m(&mut self, qubit: &Qubit, result: &Ref) -> (r: Result<(), Error>)
        requires
            old(self).wf(),
        ensures
            final(self).wf(),
            *final(final(self).builder) == *final(old(self).builder),
            r == old(self)@.verdict(
                true,
                old(self)@.has_qubit(*qubit) && old(self)@.has_result(*result),
            ),
            final(self)@ == old(self)@.after(r, measured(*qubit, *result)),
    {
        proof {
            lemma_qubit_in_range(self@, qubit.index);
            lemma_result_in_range(self@, result.index());
        }
        let measured = Measured::new(qubit.id(), result.id());
        self.add_inst(Instruction::M(measured))
    }

    /// Reset of `qubit` to zero.
    pub fn reset(&mut self, qubit: &Qubit) -> (r: Result<(), Error>)
        requires
            old(self).wf(),
        ensures
            final(self).wf(),
            *final(final(self).builder) == *final(old(self).builder),
            r == old(self)@.verdict(true, old(self)@.has_qubit(*qubit)),
            final(self)@ == old(self)@.after(r, single(SingleGate::Reset, *qubit)),
    {
        proof {
            lemma_qubit_in_range(self@, qubit.index);
        }
        let single = Single::new(qubit.id());
        self.add_inst(Instruction::Reset(single))
    }

    /// Rotation of `qubit` about the x axis by the angle, in radians, whose bit pattern
    /// as a 64-bit IEEE 754 number is `theta`. No angle is refused.
    pub fn rx(&mut self, theta: u64, qubit: &Qubit) -> (r: Result<(), Error>)
        requires
            old(self).wf(),
        ensures
            final(self).wf(),
            *final(final(self).builder) == *final(old(self).builder),
            r == old(self)@.verdict(true, old(self)@.has_qubit(*qubit)),
            final(self)@ == old(self)@.after(r, rotated(Rotation::Rx, theta, *qubit)),
    {
        proof {
            lemma_qubit_in_range(self@, qubit.index);
        }
        let rotated = Rotated::new(theta, qubit.id());
        self.add_inst(Instruction::Rx(rotated))
    }

    /// Rotation of `qubit` about the y axis by the angle, in radians, whose bit pattern
    /// as a 64-bit IEEE 754 number is `theta`. No angle is refused.
    pub fn ry(&mut self, theta: u64, qubit: &Qubit) -> (r: Result<(), Error>)
        requires
            old(self).wf(),
        ensures
            final(self).wf(),
            *final(final(self).builder) == *final(old(self).builder),
            r == old(self)@.verdict(true, old(self)@.has_qubit(*qubit)),
            final(self)@ == old(self)@.after(r, rotated(Rotation::Ry, theta, *qubit)),
    {
        proof {
            lemma_qubit_in_range(self@, qubit.index);
        }
        let rotated = Rotated::new(theta, qubit.id());
        self.add_inst(Instruction::Ry(rotated))
    }

    /// Rotation of `qubit` about the z axis by the angle, in radians, whose bit pattern
    /// as a 64-bit IEEE 754 number is `theta`. No angle is refused.
    pub fn rz(&mut self, theta: u64, qubit: &Qubit) -> (r: Result<(), Error>)
        requires
            old(self).wf(),
        ensures
            final(self).wf(),
            *final(final(self).builder) == *final(old(self).builder),
            r == old(self)@.verdict(true, old(self)@.has_qubit(*qubit)),
            final(self)@ == old(self)@.after(r, rotated(Rotation::Rz, theta, *qubit)),
    {
        proof {
            lemma_qubit_in_range(self@, qubit.index);
        }
        let rotated = Rotated::new(theta, qubit.id());
        self.add_inst(Instruction::Rz(rotated))
    }

    /// S gate on `qubit`.
    pub fn s(&mut self, qubit: &Qubit) -> (r: Result<(), Error>)
        requires
            old(self).wf(),
        ensures
            final(self).wf(),
            *final(final(self).builder) == *final(old(self).builder),
            r == old(self)@.verdict(true, old(self)@.has_qubit(*qubit)),
            final(self)@ == old(self)@.after(r, single(SingleGate::S, *qubit)),
    {
        proof {
            lemma_qubit_in_range(self@, qubit.index);
        }
        let single = Single::new(qubit.id());
        self.add_inst(Instruction::S(single))
    }

    /// Adjoint of the S gate on `qubit`.
    pub fn s_adj(&mut self, qubit: &Qubit) -> (r: Result<(), Error>)
        requires
            old(self).wf(),
        ensures
            final(self).wf(),
            *final(final(self).builder) == *final(old(self).builder),
            r == old(self)@.verdict(true, old(self)@.has_qubit(*qubit)),
            final(self)@ == old(self)@.after(r, single(SingleGate::SAdj, *qubit)),
    {
        proof {
            lemma_qubit_in_range(self@, qubit.index);
        }
        let single = Single::new(qubit.id());
        self.add_inst(Instruction::SAdj(single))
    }

    /// T gate on `qubit`.
    pub fn t(&mut self, qubit: &Qubit) -> (r: Result<(), Error>)
        requires
            old(self).wf(),
        ensures
            final(self).wf(),
            *final(final(self).builder) == *final(old(self).builder),
            r == old(self)@.verdict(true, old(self)@.has_qubit(*qubit)),
            final(self)@ == old(self)@.after(r, single(SingleGate::T, *qubit)),
    {
        proof {
            lemma_qubit_in_range(self@, qubit.index);
        }
        let single = Single::new(qubit.id());
        self.add_inst(Instruction::T(single))
    }

    /// Adjoint of the T gate on `qubit`.
    pub fn t_adj(&mut self, qubit: &Qubit) -> (r: Result<(), Error>)
        requires
            old(self).wf(),
        ensures
            final(self).wf(),
            *final(final(self).builder) == *final(old(self).builder),
            r == old(self)@.verdict(true, old(self)@.has_qubit(*qubit)),
            final(self)@ == old(self)@.after(r, single(SingleGate::TAdj, *qubit)),
    {
        proof {
            lemma_qubit_in_range(self@, qubit.index);
        }
        let single = Single::new(qubit.id());
        self.add_inst(Instruction::TAdj(single))
    }

    /// Pauli X gate on `qubit`.
    pub fn x(&mut self, qubit: &Qubit) -> (r: Result<(), Error>)
        requires
            old(self).wf(),
        ensures
            final(self).wf(),
            *final(final(self).builder) == *final(old(self).builder),
            r == old(self)@.verdict(true, old(self)@.has_qubit(*qubit)),
            final(self)@ == old(self)@.after(r, single(SingleGate::X, *qubit)),
    {
        proof {
            lemma_qubit_in_range(self@, qubit.index);
        }
        let single = Single::new(qubit.id());
        self.add_inst(Instruction::X(single))
    }

    /// Pauli Y gate on `qubit`.
    pub fn y(&mut self, qubit: &Qubit) -> (r: Result<(), Error>)
        requires
            old(self).wf(),
        ensures
            final(self).wf(),
            *final(final(self).builder) == *final(old(self).builder),
            r == old(self)@.verdict(true, old(self)@.has_qubit(*qubit)),
            final(self)@ == old(self)@.after(r, single(SingleGate::Y, *qubit)),
    {
        proof {
            lemma_qubit_in_range(self@, qubit.index);
        }
        let single = Single::new(qubit.id());
        self.add_inst(Instruction::Y(single))
    }

    /// Pauli Z gate on `qubit`.
    pub fn z(&mut self, qubit: &Qubit) -> (r: Result<(), Error>)
        requires
            old(self).wf(),
        ensures
            final(self).wf(),
            *final(final(self).builder) == *final(old(self).builder),
            r == old(self)@.verdict(true, old(self)@.has_qubit(*qubit)),
            final(self)@ == old(self)@.after(r, single(SingleGate::Z, *qubit)),
    {
        proof {
            lemma_qubit_in_range(self@, qubit.index);
        }
        let single = Single::new(qubit.id());
        self.add_inst(Instruction::Z(single))
    }

    /// A conditional on `result` whose two bodies are given whole: `one` runs where
    /// the slot holds one, `zero` where it holds zero. Either may be empty.
    ///
    /// Every operand inside the bodies must name a slot of the program, as `result`
    /// must; else the call fails with `InvalidOperand`.
    pub fn if_result(&mut self, result: &Ref, one: Vec<Instruction>, zero: Vec<Instruction>) -> (r:
        Result<(), Error>)
        requires
            old(self).wf(),
        ensures
            final(self).wf(),
            *final(final(self).builder) == *final(old(self).builder),
            r == old(self)@.verdict(
                true,
                old(self)@.has_result(*result) && old(self)@.model.admits_all(insts_view(one@))
                    && old(self)@.model.admits_all(insts_view(zero@)),
            ),
            final(self)@ == old(self)@.after(r, conditional(*result, one@, zero@)),
    {
        proof {
            lemma_result_in_range(self@, result.index());
        }
        let branch = If::new(result.id(), one, zero);
        self.add_inst(Instruction::If(branch))
    }

    /// Opens a conditional on `result`: the instructions that follow go to its body
    /// for the value one, until `switch_branch` or `close_branch`.
    pub fn open_branch(&mut self, result: &Ref) -> (r: Result<(), Error>)
        requires
            old(self).wf(),
        ensures
            final(self).wf(),
            *final(final(self).builder) == *final(old(self).builder),
            r == old(self)@.verdict(true, old(self)@.has_result(*result)),
            final(self)@ == if r is Ok {
                old(self)@.open(result_id(result.index()))
            } else {
                old(self)@
            },
    {
        proof {
            lemma_result_in_range(self@, result.index());
        }
        self.builder.open_branch(result.id())
    }

    /// Turns the innermost open conditional to its body for the value zero; see
    /// `Builder::switch_branch`.
    pub fn switch_branch(&mut self) -> (r: Result<(), Error>)
        requires
            old(self).wf(),
        ensures
            final(self).wf(),
            *final(final(self).builder) == *final(old(self).builder),
            r == old(self)@.verdict(
                old(self)@.scopes.len() > 0 && !old(self)@.scopes.last().in_zero,
                true,
            ),
            final(self)@ == if r is Ok {
                old(self)@.switch()
            } else {
                old(self)@
            },
    {
        self.builder.switch_branch()
    }

    /// Closes the innermost open conditional; see `Builder::close_branch`.
    pub fn close_branch(&mut self) -> (r: Result<(), Error>)
        requires
            old(self).wf(),
        ensures
            final(self).wf(),
            *final(final(self).builder) == *final(old(self).builder),
            r == old(self)@.verdict(old(self)@.scopes.len() > 0, true),
            final(self)@ == if r is Ok {
                old(self)@.close()
            } else {
                old(self)@
            },
    {
        self.builder.close_branch()
    }
}

} // verus!
