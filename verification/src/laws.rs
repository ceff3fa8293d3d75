//! What holds of the builder and of the text it gives, for every program.
use vstd::prelude::*;
use vstd::string::*;
use crate::builder::BuilderView;
use crate::emit::{
    branch_head, branch_middle, branch_tail, branch_tags, branch_tags_all, epilogue, ir_result,
    ir_text, lower, lower_all, prologue,
};
use crate::error::Error;
use crate::instruction::InstructionView;
use crate::model::ModelView;
use crate::text::{all_digits, decimal, lemma_decimal_injective, lemma_decimal_reads_back};

verus! {

/// The builder after each of `insts` has been put behind the current sequence, in
/// order.
pub open spec fn append_all(b: BuilderView, insts: Seq<InstructionView>) -> BuilderView
    decreases insts.len(),
{
    if insts.len() == 0 {
        b
    } else {
        append_all(b, insts.drop_last()).append(insts.last())
    }
}

/// An instruction that is appended stands last in the current sequence, behind all
/// that stood there, which stay as they were; the program's registers and name, the
/// number of open conditionals and the guard stay as well.
pub proof fn lemma_append_extends_current(b: BuilderView, inst: InstructionView)
    ensures
        b.append(inst).current() == b.current().push(inst),
        b.append(inst).current().len() == b.current().len() + 1,
        forall|k: int| 0 <= k < b.current().len() ==> b.append(inst).current()[k] == b.current()[k],
        b.append(inst).scopes.len() == b.scopes.len(),
        b.append(inst).access == b.access,
        b.append(inst).model.name == b.model.name,
        b.append(inst).model.qubits == b.model.qubits,
        b.append(inst).model.registers == b.model.registers,
{
}

/// Appending a number of instructions makes the current sequence longer by that
/// number: they stand behind what was there, in the order of the calls.
pub proof fn lemma_appends_keep_order(b: BuilderView, insts: Seq<InstructionView>)
    ensures
        append_all(b, insts).current() == b.current() + insts,
        append_all(b, insts).scopes.len() == b.scopes.len(),
        b.scopes.len() > 0 ==> append_all(b, insts).model == b.model,
        b.scopes.len() > 0 ==> append_all(b, insts).scopes.drop_last() == b.scopes.drop_last(),
        b.scopes.len() > 0 ==> append_all(b, insts).scopes.last().condition
            == b.scopes.last().condition,
        b.scopes.len() > 0 ==> append_all(b, insts).scopes.last().in_zero
            == b.scopes.last().in_zero,
        b.scopes.len() > 0 && b.scopes.last().in_zero ==> append_all(b, insts).scopes.last().one
            == b.scopes.last().one,
        b.scopes.len() > 0 && !b.scopes.last().in_zero ==> append_all(
            b,
            insts,
        ).scopes.last().zero == b.scopes.last().zero,
        append_all(b, insts).access == b.access,
    decreases insts.len(),
{
    if insts.len() > 0 {
        lemma_appends_keep_order(b, insts.drop_last());
    }
}

/// On a new program, after `n` instructions have been appended the program holds
/// exactly these `n`, in the order of the calls.
pub proof fn lemma_new_program_holds_appended(
    name: Seq<char>,
    qubits: nat,
    results: nat,
    insts: Seq<InstructionView>,
)
    ensures
        append_all(BuilderView::fresh(name, qubits, results), insts).model.instructions == insts,
{
    let b = BuilderView::fresh(name, qubits, results);
    lemma_appends_keep_order(b, insts);
}

/// Opening a conditional, appending the instructions of `one`, turning to the other
/// body, appending those of `zero` and closing gives what appending the one
/// conditional with these bodies gives.
pub proof fn lemma_scoped_branch_is_conditional(
    b: BuilderView,
    condition: Seq<char>,
    one: Seq<InstructionView>,
    zero: Seq<InstructionView>,
)
    ensures
        append_all(append_all(b.open(condition), one).switch(), zero).close() == b.append(
            InstructionView::If { condition, one, zero },
        ),
{
    let opened = b.open(condition);
    let filled = append_all(opened, one);
    lemma_appends_keep_order(opened, one);
    let turned = filled.switch();
    let done = append_all(turned, zero);
    lemma_appends_keep_order(turned, zero);
    assert(turned.scopes.drop_last() =~= filled.scopes.drop_last());
    assert(done.scopes.drop_last() == b.scopes);
}

/// The text of a sequence with one more instruction is the text of the sequence
/// followed by the text of that instruction, whose place is the old length.
pub proof fn lemma_lower_push(insts: Seq<InstructionView>, inst: InstructionView, prefix: Seq<char>)
    ensures
        lower_all(insts.push(inst), prefix) == lower_all(insts, prefix) + lower(
            inst,
            prefix + decimal(insts.len()),
        ),
{
    assert(insts.push(inst).drop_last() =~= insts);
}

/// The text of an instruction is never empty.
pub proof fn lemma_lower_not_empty(inst: InstructionView, tag: Seq<char>)
    ensures
        lower(inst, tag).len() > 0,
{
    reveal_strlit(")\n");
    reveal_strlit(":\n");
}

/// Appending an instruction lengthens the text and rewrites none of it: the text
/// before the call, short of its closing lines, is the beginning of the text after
/// the call, where the text of the new instruction follows and then the same closing
/// lines.
pub proof fn lemma_append_extends_text(m: ModelView, inst: InstructionView)
    ensures
        ({
            let body = prologue(m) + lower_all(m.instructions, Seq::empty());
            let added = lower(inst, decimal(m.instructions.len()));
            &&& ir_text(m) == body + epilogue()
            &&& ir_text(m.add_inst(inst)) == body + added + epilogue()
            &&& added.len() > 0
            &&& ir_text(m.add_inst(inst)).take(body.len() as int) == ir_text(m).take(
                body.len() as int,
            )
        }),
{
    lemma_lower_push(m.instructions, inst, Seq::empty());
    lemma_lower_not_empty(inst, decimal(m.instructions.len()));
}

/// Two requests for the text of the same program give the same: the same text,
/// character for character, or the same failure.
pub proof fn lemma_emission_is_a_function(
    m: ModelView,
    first: Result<String, Error>,
    second: Result<String, Error>,
)
    requires
        match first {
            Ok(text) => ir_result(m) == Ok::<Seq<char>, Error>(text@),
            Err(e) => ir_result(m) == Err::<Seq<char>, Error>(e),
        },
        match second {
            Ok(text) => ir_result(m) == Ok::<Seq<char>, Error>(text@),
            Err(e) => ir_result(m) == Err::<Seq<char>, Error>(e),
        },
    ensures
        match (first, second) {
            (Ok(a), Ok(b)) => a@ == b@,
            (Err(a), Err(b)) => a == b,
            _ => false,
        },
{
}

/// A conditional with two empty bodies still has its two blocks and its join block:
/// after the branch comes the label of the first block and its jump to the join
/// block, then the label of the second block and its jump to the join block, then
/// the label of the join block.
pub proof fn lemma_empty_branches_keep_blocks(condition: Seq<char>, tag: Seq<char>)
    ensures
        lower(InstructionView::If { condition, one: Seq::empty(), zero: Seq::empty() }, tag)
            == branch_head(condition, tag) + branch_middle(tag) + branch_tail(tag),
        branch_head(condition, tag) == "  %c"@ + tag
            + " = call i1 @__quantum__qis__read_result__body(%Result* @"@ + condition
            + ")\n  br i1 %c"@ + tag + ", label %then"@ + tag + ", label %else"@ + tag
            + "\nthen"@ + tag + ":\n"@,
        branch_middle(tag) == "  br label %continue"@ + tag + "\nelse"@ + tag + ":\n"@,
        branch_tail(tag) == "  br label %continue"@ + tag + "\ncontinue"@ + tag + ":\n"@,
{
}

/// What a builder holds can be written out: while no conditional is open and no
/// writer holds the model, the builder's text is the text of its program, and there
/// is one.
pub proof fn lemma_builder_text_is_program_text(b: BuilderView)
    requires
        b.wf(),
        b.scopes.len() == 0,
        b.access.readable(),
    ensures
        b.ir() == ir_result(b.model),
        b.ir() is Ok,
{
}

/// Whether the place `t` is `place` itself or lies inside one of the two bodies of the
/// conditional at `place`.
pub open spec fn stands_at(t: Seq<char>, place: Seq<char>) -> bool {
    &&& place.len() <= t.len()
    &&& t.take(place.len() as int) == place
    &&& (t.len() > place.len() ==> t[place.len() as int] == 't' || t[place.len() as int] == 'e')
}

/// A place lies at one index of a sequence only.
pub proof fn lemma_index_of_place(t: Seq<char>, prefix: Seq<char>, j: nat, k: nat)
    requires
        stands_at(t, prefix + decimal(j)),
        stands_at(t, prefix + decimal(k)),
    ensures
        j == k,
{
    let dj = decimal(j);
    let dk = decimal(k);
    let base = prefix.len() as int;
    lemma_decimal_reads_back(j);
    lemma_decimal_reads_back(k);
    assert forall|i: int| 0 <= i < dj.len() implies t[base + i] == dj[i] by {
        assert(t.take(base + dj.len())[base + i] == (prefix + dj)[base + i]);
    }
    assert forall|i: int| 0 <= i < dk.len() implies t[base + i] == dk[i] by {
        assert(t.take(base + dk.len())[base + i] == (prefix + dk)[base + i]);
    }
    if dj.len() < dk.len() {
        assert(t[(prefix + dj).len() as int] == dk[dj.len() as int]);
    } else if dk.len() < dj.len() {
        assert(t[(prefix + dk).len() as int] == dj[dk.len() as int]);
    } else {
        assert(dj =~= dk);
        lemma_decimal_injective(j, k);
    }
}

/// The places of the conditionals in an instruction lie at the instruction's own
/// place, and no two of them are the same.
pub proof fn lemma_branch_tags_of_instruction(inst: InstructionView, tag: Seq<char>)
    ensures
        branch_tags(inst, tag).no_duplicates(),
        forall|i: int|
            0 <= i < branch_tags(inst, tag).len() ==> stands_at(
                #[trigger] branch_tags(inst, tag)[i],
                tag,
            ),
    decreases inst, 0nat,
{
    match inst {
        InstructionView::If { condition, one, zero } => {
            reveal_strlit("t");
            reveal_strlit("e");
            let first = branch_tags_all(one, tag + "t"@);
            let second = branch_tags_all(zero, tag + "e"@);
            let all = branch_tags(inst, tag);
            lemma_branch_tags_of_sequence(one, tag + "t"@);
            lemma_branch_tags_of_sequence(zero, tag + "e"@);
            assert(all =~= seq![tag] + first + second);
            let at = tag.len() as int;
            assert forall|i: int| 0 <= i < first.len() implies (#[trigger] first[i]).len() > at
                && first[i].take(at) == tag && first[i][at] == 't' by {
                let k = choose|k: nat|
                    k < one.len() && stands_at(first[i], tag + "t"@ + decimal(k));
                let place = tag + "t"@ + decimal(k);
                assert(first[i].take(place.len() as int)[at] == place[at]);
            }
            assert forall|i: int| 0 <= i < second.len() implies (#[trigger] second[i]).len() > at
                && second[i].take(at) == tag && second[i][at] == 'e' by {
                let k = choose|k: nat|
                    k < zero.len() && stands_at(second[i], tag + "e"@ + decimal(k));
                let place = tag + "e"@ + decimal(k);
                assert(second[i].take(place.len() as int)[at] == place[at]);
            }
            assert(tag.take(at) =~= tag);
            assert forall|i: int| 0 <= i < all.len() implies stands_at(
                #[trigger] all[i],
                tag,
            ) by {}
            assert forall|i: int, j: int|
                0 <= i < all.len() && 0 <= j < all.len() && i != j implies all[i] != all[j] by {}
        },
        _ => {},
    }
}

/// The places of the conditionals in a sequence lie each at an index of the sequence,
/// and no two of them are the same: every block of a program has a name of its own.
pub proof fn lemma_branch_tags_of_sequence(insts: Seq<InstructionView>, prefix: Seq<char>)
    ensures
        branch_tags_all(insts, prefix).no_duplicates(),
        forall|i: int|
            0 <= i < branch_tags_all(insts, prefix).len() ==> exists|k: nat|
                k < insts.len() && stands_at(
                    #[trigger] branch_tags_all(insts, prefix)[i],
                    prefix + decimal(k),
                ),
    decreases insts, 1nat,
{
    if insts.len() > 0 {
        let last = (insts.len() - 1) as nat;
        let front = branch_tags_all(insts.drop_last(), prefix);
        let back = branch_tags(insts.last(), prefix + decimal(last));
        let all = branch_tags_all(insts, prefix);
        lemma_branch_tags_of_sequence(insts.drop_last(), prefix);
        lemma_branch_tags_of_instruction(insts.last(), prefix + decimal(last));
        assert(all =~= front + back);
        assert forall|i: int| 0 <= i < all.len() implies exists|k: nat|
            k < insts.len() && stands_at(#[trigger] all[i], prefix + decimal(k)) by {
            if i < front.len() {
                let k = choose|k: nat|
                    k < insts.drop_last().len() && stands_at(front[i], prefix + decimal(k));
                assert(stands_at(all[i], prefix + decimal(k)));
            } else {
                assert(stands_at(all[i], prefix + decimal(last)));
            }
        }
        assert forall|i: int, j: int|
            0 <= i < all.len() && 0 <= j < all.len() && i != j implies all[i] != all[j] by {
            if i < front.len() && j >= front.len() {
                let k = choose|k: nat|
                    k < insts.drop_last().len() && stands_at(front[i], prefix + decimal(k));
                if all[i] == all[j] {
                    lemma_index_of_place(all[i], prefix, k, last);
                }
            } else if j < front.len() && i >= front.len() {
                let k = choose|k: nat|
                    k < insts.drop_last().len() && stands_at(front[j], prefix + decimal(k));
                if all[i] == all[j] {
                    lemma_index_of_place(all[j], prefix, k, last);
                }
            }
        }
    }
}

} // verus!
