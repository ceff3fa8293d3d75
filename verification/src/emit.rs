//! The program model written out as text.
//!
//! The text has a header with the program's name, one declaration line for each slot
//! (the qubit slots first, register by register and index by index, then the result
//! slots in the same way), and one function whose entry block holds the program's
//! instructions, one line each, in order. A conditional reads its result slot and
//! branches to one of two blocks, each of which ends with a jump to a third, where
//! the enclosing sequence goes on.
use vstd::prelude::*;
use vstd::string::*;
use crate::error::Error;
use crate::instruction::{
    insts_view, ControlledGate, Instruction, InstructionView, Rotation, SingleGate,
};
use crate::model::{ModelView, SemanticModel};
use crate::registry::{
    classical_views, quantum_views, slot_id, ClassicalRegister, QuantumRegister, RegisterView,
};
use crate::text::{decimal, hex, push_decimal, push_hex};

verus! {

/// The function that stands for a gate on one qubit.
pub open spec fn single_callee(gate: SingleGate) -> Seq<char> {
    match gate {
        SingleGate::H => "__quantum__qis__h__body"@,
        SingleGate::X => "__quantum__qis__x__body"@,
        SingleGate::Y => "__quantum__qis__y__body"@,
        SingleGate::Z => "__quantum__qis__z__body"@,
        SingleGate::S => "__quantum__qis__s__body"@,
        SingleGate::SAdj => "__quantum__qis__s__adj"@,
        SingleGate::T => "__quantum__qis__t__body"@,
        SingleGate::TAdj => "__quantum__qis__t__adj"@,
        SingleGate::Reset => "__quantum__qis__reset__body"@,
    }
}

/// The function that stands for a controlled gate.
pub open spec fn controlled_callee(gate: ControlledGate) -> Seq<char> {
    match gate {
        ControlledGate::Cx => "__quantum__qis__cnot__body"@,
        ControlledGate::Cz => "__quantum__qis__cz__body"@,
    }
}

/// The function that stands for a rotation.
pub open spec fn rotation_callee(axis: Rotation) -> Seq<char> {
    match axis {
        Rotation::Rx => "__quantum__qis__rx__body"@,
        Rotation::Ry => "__quantum__qis__ry__body"@,
        Rotation::Rz => "__quantum__qis__rz__body"@,
    }
}

/// The line for a gate on one qubit.
pub open spec fn single_line(callee: Seq<char>, qubit: Seq<char>) -> Seq<char> {
    "  call void @"@ + callee + "(%Qubit* @"@ + qubit + ")\n"@
}

/// The line for a controlled gate.
pub open spec fn controlled_line(callee: Seq<char>, control: Seq<char>, target: Seq<char>) -> Seq<
    char,
> {
    "  call void @"@ + callee + "(%Qubit* @"@ + control + ", %Qubit* @"@ + target + ")\n"@
}

/// The line for a rotation. The angle stands as the sixteen hexadecimal digits of its
/// bit pattern, whatever it is.
pub open spec fn rotated_line(callee: Seq<char>, theta: u64, qubit: Seq<char>) -> Seq<char> {
    "  call void @"@ + callee + "(double 0x"@ + hex(theta as nat, 16) + ", %Qubit* @"@ + qubit
        + ")\n"@
}

/// The line for a measurement.
pub open spec fn measured_line(qubit: Seq<char>, target: Seq<char>) -> Seq<char> {
    "  call void @__quantum__qis__mz__body(%Qubit* @"@ + qubit + ", %Result* @"@ + target
        + ")\n"@
}

/// The two lines that open a conditional: the read of the result slot and the
/// two-way branch, then the label of the block for the value one.
pub open spec fn branch_head(condition: Seq<char>, tag: Seq<char>) -> Seq<char> {
    "  %c"@ + tag + " = call i1 @__quantum__qis__read_result__body(%Result* @"@ + condition
        + ")\n  br i1 %c"@ + tag + ", label %then"@ + tag + ", label %else"@ + tag + "\nthen"@
        + tag + ":\n"@
}

/// What lies between the two bodies of a conditional: the jump from the first block
/// to the join block, then the label of the block for the value zero.
pub open spec fn branch_middle(tag: Seq<char>) -> Seq<char> {
    "  br label %continue"@ + tag + "\nelse"@ + tag + ":\n"@
}

/// What closes a conditional: the jump from the second block to the join block, then
/// the join block's label.
pub open spec fn branch_tail(tag: Seq<char>) -> Seq<char> {
    "  br label %continue"@ + tag + "\ncontinue"@ + tag + ":\n"@
}

/// The text of one instruction. `tag` tells the instruction's place in the program
/// and serves to name the blocks of a conditional: the place of an instruction is
/// the place of the sequence it stands in, followed by its index there; the bodies
/// of a conditional have the conditional's place followed by `t` and by `e`.
pub open spec fn lower(inst: InstructionView, tag: Seq<char>) -> Seq<char>
    decreases inst,
{
    match inst {
        InstructionView::Single { gate, qubit } => single_line(single_callee(gate), qubit),
        InstructionView::Controlled { gate, control, target } => controlled_line(
            controlled_callee(gate),
            control,
            target,
        ),
        InstructionView::Rotated { axis, theta, qubit } => rotated_line(
            rotation_callee(axis),
            theta,
            qubit,
        ),
        InstructionView::Measured { qubit, target } => measured_line(qubit, target),
        InstructionView::If { condition, one, zero } => branch_head(condition, tag) + lower_all(
            one,
            tag + "t"@,
        ) + branch_middle(tag) + lower_all(zero, tag + "e"@) + branch_tail(tag),
    }
}

/// The text of a sequence of instructions that stands at the place `prefix`: the text
/// of each, in order.
pub open spec fn lower_all(insts: Seq<InstructionView>, prefix: Seq<char>) -> Seq<char>
    decreases insts,
{
    if insts.len() == 0 {
        Seq::empty()
    } else {
        lower_all(insts.drop_last(), prefix) + lower(
            insts.last(),
            prefix + decimal((insts.len() - 1) as nat),
        )
    }
}

/// The places of the conditionals in `inst`, which stands at the place `tag`, in the
/// order of their text. The blocks of a conditional are named after its place.
pub open spec fn branch_tags(inst: InstructionView, tag: Seq<char>) -> Seq<Seq<char>>
    decreases inst,
{
    match inst {
        InstructionView::If { condition, one, zero } => seq![tag] + branch_tags_all(
            one,
            tag + "t"@,
        ) + branch_tags_all(zero, tag + "e"@),
        _ => Seq::empty(),
    }
}

/// The places of the conditionals in `insts`, a sequence at the place `prefix`, in
/// the order of their text.
pub open spec fn branch_tags_all(insts: Seq<InstructionView>, prefix: Seq<char>) -> Seq<
    Seq<char>,
>
    decreases insts,
{
    if insts.len() == 0 {
        Seq::empty()
    } else {
        branch_tags_all(insts.drop_last(), prefix) + branch_tags(
            insts.last(),
            prefix + decimal((insts.len() - 1) as nat),
        )
    }
}

/// The declaration line of the slot `id` of the kind `kind`.
pub open spec fn slot_line(id: Seq<char>, kind: Seq<char>) -> Seq<char> {
    "@"@ + id + " = external global %"@ + kind + "\n"@
}

/// The declaration lines of the first `count` slots of the register called `name`.
pub open spec fn slot_lines(name: Seq<char>, count: nat, kind: Seq<char>) -> Seq<char>
    decreases count,
{
    if count == 0 {
        Seq::empty()
    } else {
        slot_lines(name, (count - 1) as nat, kind) + slot_line(
            slot_id(name, (count - 1) as nat),
            kind,
        )
    }
}

/// The declaration lines of all slots of `groups`, register by register.
pub open spec fn register_lines(groups: Seq<RegisterView>, kind: Seq<char>) -> Seq<char>
    decreases groups.len(),
{
    if groups.len() == 0 {
        Seq::empty()
    } else {
        register_lines(groups.drop_last(), kind) + slot_lines(
            groups.last().name,
            groups.last().size,
            kind,
        )
    }
}

/// What stands before the instructions: the header, the declarations, and the opening
/// of the function with the label of its entry block. The program's name stands in
/// the header as it is, whatever characters it holds.
pub open spec fn prologue(m: ModelView) -> Seq<char> {
    "; ModuleID = '"@ + m.name + "'\nsource_filename = \""@ + m.name
        + "\"\n\n%Qubit = type opaque\n%Result = type opaque\n\n"@ + register_lines(
        m.qubits,
        "Qubit"@,
    ) + register_lines(m.registers, "Result"@) + "\ndefine void @main() {\nentry:\n"@
}

/// What stands behind the instructions.
pub open spec fn epilogue() -> Seq<char> {
    "  ret void\n}\n"@
}

/// The text of the program `m`.
pub open spec fn ir_text(m: ModelView) -> Seq<char> {
    prologue(m) + lower_all(m.instructions, Seq::empty()) + epilogue()
}

/// What writing out the program `m` gives: its text where every operand names a
/// slot of the program, and no text otherwise.
pub open spec fn ir_result(m: ModelView) -> Result<Seq<char>, Error> {
    if m.well_formed() {
        Ok(ir_text(m))
    } else {
        Err(Error::EmissionError)
    }
}

fn emit_single(out: &mut String, callee: &str, qubit: &str)
    ensures
        final(out)@ == old(out)@ + single_line(callee@, qubit@),
{
    out.append("  call void @");
    out.append(callee);
    out.append("(%Qubit* @");
    out.append(qubit);
    out.append(")\n");
    assert(out@ =~= old(out)@ + single_line(callee@, qubit@));
}

fn emit_controlled(out: &mut String, callee: &str, control: &str, target: &str)
    ensures
        final(out)@ == old(out)@ + controlled_line(callee@, control@, target@),
{
    out.append("  call void @");
    out.append(callee);
    out.append("(%Qubit* @");
    out.append(control);
    out.append(", %Qubit* @");
    out.append(target);
    out.append(")\n");
    assert(out@ =~= old(out)@ + controlled_line(callee@, control@, target@));
}

fn emit_rotated(out: &mut String, callee: &str, theta: u64, qubit: &str)
    ensures
        final(out)@ == old(out)@ + rotated_line(callee@, theta, qubit@),
{
    out.append("  call void @");
    out.append(callee);
    out.append("(double 0x");
    push_hex(out, theta, 16);
    out.append(", %Qubit* @");
    out.append(qubit);
    out.append(")\n");
    assert(out@ =~= old(out)@ + rotated_line(callee@, theta, qubit@));
}

fn emit_measured(out: &mut String, qubit: &str, target: &str)
    ensures
        final(out)@ == old(out)@ + measured_line(qubit@, target@),
{
    out.append("  call void @__quantum__qis__mz__body(%Qubit* @");
    out.append(qubit);
    out.append(", %Result* @");
    out.append(target);
    out.append(")\n");
    assert(out@ =~= old(out)@ + measured_line(qubit@, target@));
}

fn emit_branch_head(out: &mut String, condition: &str, tag: &str)
    ensures
        final(out)@ == old(out)@ + branch_head(condition@, tag@),
{
    out.append("  %c");
    out.append(tag);
    out.append(" = call i1 @__quantum__qis__read_result__body(%Result* @");
    out.append(condition);
    out.append(")\n  br i1 %c");
    out.append(tag);
    out.append(", label %then");
    out.append(tag);
    out.append(", label %else");
    out.append(tag);
    out.append("\nthen");
    out.append(tag);
    out.append(":\n");
    assert(out@ =~= old(out)@ + branch_head(condition@, tag@));
}

fn emit_branch_middle(out: &mut String, tag: &str)
    ensures
        final(out)@ == old(out)@ + branch_middle(tag@),
{
    out.append("  br label %continue");
    out.append(tag);
    out.append("\nelse");
    out.append(tag);
    out.append(":\n");
    assert(out@ =~= old(out)@ + branch_middle(tag@));
}

fn emit_branch_tail(out: &mut String, tag: &str)
    ensures
        final(out)@ == old(out)@ + branch_tail(tag@),
{
    out.append("  br label %continue");
    out.append(tag);
    out.append("\ncontinue");
    out.append(tag);
    out.append(":\n");
    assert(out@ =~= old(out)@ + branch_tail(tag@));
}

/// Writes the text of `inst`, which stands at index `position` of a sequence at the
/// place `prefix`, at the end of `out`.
fn emit_inst(out: &mut String, inst: &Instruction, prefix: &str, position: usize)
    ensures
        final(out)@ == old(out)@ + lower(inst@, prefix@ + decimal(position as nat)),
    decreases inst,
{
    match inst {
        Instruction::Cx(c) => emit_controlled(
            out,
            "__quantum__qis__cnot__body",
            c.control.as_str(),
            c.target.as_str(),
        ),
        Instruction::Cz(c) => emit_controlled(
            out,
            "__quantum__qis__cz__body",
            c.control.as_str(),
            c.target.as_str(),
        ),
        Instruction::H(s) => emit_single(out, "__quantum__qis__h__body", s.qubit.as_str()),
        Instruction::M(m) => emit_measured(out, m.qubit.as_str(), m.target.as_str()),
        Instruction::Reset(s) => emit_single(
            out,
            "__quantum__qis__reset__body",
            s.qubit.as_str(),
        ),
        Instruction::Rx(r) => emit_rotated(
            out,
            "__quantum__qis__rx__body",
            r.theta,
            r.qubit.as_str(),
        ),
        Instruction::Ry(r) => emit_rotated(
            out,
            "__quantum__qis__ry__body",
            r.theta,
            r.qubit.as_str(),
        ),
        Instruction::Rz(r) => emit_rotated(
            out,
            "__quantum__qis__rz__body",
            r.theta,
            r.qubit.as_str(),
        ),
        Instruction::S(s) => emit_single(out, "__quantum__qis__s__body", s.qubit.as_str()),
        Instruction::SAdj(s) => emit_single(out, "__quantum__qis__s__adj", s.qubit.as_str()),
        Instruction::T(s) => emit_single(out, "__quantum__qis__t__body", s.qubit.as_str()),
        Instruction::TAdj(s) => emit_single(out, "__quantum__qis__t__adj", s.qubit.as_str()),
        Instruction::X(s) => emit_single(out, "__quantum__qis__x__body", s.qubit.as_str()),
        Instruction::Y(s) => emit_single(out, "__quantum__qis__y__body", s.qubit.as_str()),
        Instruction::Z(s) => emit_single(out, "__quantum__qis__z__body", s.qubit.as_str()),
        Instruction::If(c) => {
            let mut tag = String::from_str(prefix);
            push_decimal(&mut tag, position as u64);
            let one_place = tag.clone().concat("t");
            let zero_place = tag.clone().concat("e");
            emit_branch_head(out, c.condition.as_str(), tag.as_str());
            emit_all(out, &c.one, one_place.as_str());
            emit_branch_middle(out, tag.as_str());
            emit_all(out, &c.zero, zero_place.as_str());
            emit_branch_tail(out, tag.as_str());
            assert(out@ =~= old(out)@ + lower(inst@, tag@));
        },
    }
}

/// Writes the text of `insts`, a sequence at the place `prefix`, at the end of `out`.
fn emit_all(out: &mut String, insts: &Vec<Instruction>, prefix: &str)
    ensures
        final(out)@ == old(out)@ + lower_all(insts_view(insts@), prefix@),
    decreases insts,
{
    let ghost views = insts_view(insts@);
    let mut k: usize = 0;
    assert(views.take(0) =~= Seq::empty());
    while k < insts.len()
        invariant
            k <= insts.len(),
            views == insts_view(insts@),
            out@ == old(out)@ + lower_all(views.take(k as int), prefix@),
        decreases insts.len() - k,
    {
        proof {
            let next = views.take(k + 1);
            assert(next.drop_last() =~= views.take(k as int));
            assert(next.last() == insts@[k as int]@);
        }
        emit_inst(out, &insts[k], prefix, k);
        assert(out@ =~= old(out)@ + lower_all(views.take(k + 1), prefix@));
        k = k + 1;
    }
    assert(views.take(k as int) =~= views);
}

/// Writes the declaration lines of the slots of one register at the end of `out`.
fn emit_slots(out: &mut String, name: &str, size: u64, kind: &str)
    ensures
        final(out)@ == old(out)@ + slot_lines(name@, size as nat, kind@),
{
    let mut i: u64 = 0;
    while i < size
        invariant
            i <= size,
            out@ == old(out)@ + slot_lines(name@, i as nat, kind@),
        decreases size - i,
    {
        out.append("@");
        out.append(name);
        push_decimal(out, i);
        out.append(" = external global %");
        out.append(kind);
        out.append("\n");
        assert(out@ =~= old(out)@ + slot_lines(name@, (i + 1) as nat, kind@));
        i = i + 1;
    }
}

/// Writes the declaration lines of the qubit slots at the end of `out`.
fn emit_qubits(out: &mut String, groups: &Vec<QuantumRegister>)
    ensures
        final(out)@ == old(out)@ + register_lines(quantum_views(groups@), "Qubit"@),
{
    let ghost views = quantum_views(groups@);
    let mut k: usize = 0;
    assert(views.take(0) =~= Seq::empty());
    while k < groups.len()
        invariant
            k <= groups.len(),
            views == quantum_views(groups@),
            out@ == old(out)@ + register_lines(views.take(k as int), "Qubit"@),
        decreases groups.len() - k,
    {
        proof {
            let next = views.take(k + 1);
            assert(next.drop_last() =~= views.take(k as int));
            assert(next.last() == groups@[k as int]@);
        }
        emit_slots(out, groups[k].name.as_str(), groups[k].size, "Qubit");
        assert(out@ =~= old(out)@ + register_lines(views.take(k + 1), "Qubit"@));
        k = k + 1;
    }
    assert(views.take(k as int) =~= views);
}

/// Writes the declaration lines of the result slots at the end of `out`.
fn emit_results(out: &mut String, groups: &Vec<ClassicalRegister>)
    ensures
        final(out)@ == old(out)@ + register_lines(classical_views(groups@), "Result"@),
{
    let ghost views = classical_views(groups@);
    let mut k: usize = 0;
    assert(views.take(0) =~= Seq::empty());
    while k < groups.len()
        invariant
            k <= groups.len(),
            views == classical_views(groups@),
            out@ == old(out)@ + register_lines(views.take(k as int), "Result"@),
        decreases groups.len() - k,
    {
        proof {
            let next = views.take(k + 1);
            assert(next.drop_last() =~= views.take(k as int));
            assert(next.last() == groups@[k as int]@);
        }
        emit_slots(out, groups[k].name.as_str(), groups[k].size, "Result");
        assert(out@ =~= old(out)@ + register_lines(views.take(k + 1), "Result"@));
        k = k + 1;
    }
    assert(views.take(k as int) =~= views);
}

/// The text of a program, whatever its instructions name.
pub fn write_ir(model: &SemanticModel) -> (text: String)
    ensures
        text@ == ir_text(model@),
{
    let mut out = String::new();
    out.append("; ModuleID = '");
    out.append(model.name.as_str());
    out.append("'\nsource_filename = \"");
    out.append(model.name.as_str());
    out.append("\"\n\n%Qubit = type opaque\n%Result = type opaque\n\n");
    emit_qubits(&mut out, &model.qubits);
    emit_results(&mut out, &model.registers);
    out.append("\ndefine void @main() {\nentry:\n");
    assert(out@ =~= prologue(model@));
    emit_all(&mut out, &model.instructions, "");
    out.append("  ret void\n}\n");
    proof {
        reveal_strlit("");
        assert(""@ =~= Seq::<char>::empty());
    }
    out
}

/// The text of a program.
///
/// There is a text exactly when every operand of every instruction, those inside
/// conditionals too, names a slot of the program; otherwise the call fails with
/// `EmissionError`. The same program always gives the same text.
pub fn get_ir_string(model: &SemanticModel) -> (r: Result<String, Error>)
    ensures
        match r {
            Ok(text) => ir_result(model@) == Ok::<Seq<char>, Error>(text@),
            Err(e) => ir_result(model@) == Err::<Seq<char>, Error>(e),
        },
{
    if model.is_well_formed() {
        Ok(write_ir(model))
    } else {
        Err(Error::EmissionError)
    }
}

} // verus!
