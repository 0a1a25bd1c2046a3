//! The instruction extractor: the flat, order-preserving sequence of every
//! instruction that a transaction ran.
//!
//! The output holds each top-level instruction of the message, each followed
//! at once by the inner instructions that the metadata recorded for it.

use crate::error::CarbonError;
use crate::instruction::{Instruction, InstructionView};
use crate::message::{
    CompiledInstructionView, LoadedAddresses, LoadedAddressesView, VersionedMessage,
    VersionedMessageView,
};
use crate::metadata::{
    InnerInstructionView, InnerInstructions, InnerInstructionsView, OptionSerializer,
    TransactionStatusMetaView, UiInnerInstructions, UiInnerInstructionsView,
    UiTransactionStatusMetaView,
};
use crate::normalize::{decode_group, decoded_group, group_decodes, normalized_loaded_addresses};
use crate::resolver::{
    lemma_accounts_follow_indices, resolve_instruction, resolved_account, resolved_instruction,
};
use vstd::prelude::*;
use vstd::seq_lib::lemma_flatten_concat;

verus! {

/// The compiled instructions of a group of inner instructions, in order.
pub open spec fn group_instructions(group: InnerInstructionsView) -> Seq<CompiledInstructionView> {
    group.instructions.map_values(|inner: InnerInstructionView| inner.instruction)
}

/// What a group contributes to the top-level instruction at `index`: its
/// instructions if it names exactly that index as its parent, nothing
/// otherwise.
pub open spec fn group_instructions_for(
    group: InnerInstructionsView,
    index: int,
) -> Seq<CompiledInstructionView> {
    if group.index as int == index {
        group_instructions(group)
    } else {
        Seq::empty()
    }
}

/// The function from a group to what it contributes to the top-level
/// instruction at `index`.
pub open spec fn select_for(index: int) -> spec_fn(InnerInstructionsView) -> Seq<
    CompiledInstructionView,
> {
    |group: InnerInstructionsView| group_instructions_for(group, index)
}

/// The inner instructions of the top-level instruction at `index`: those of
/// every group whose parent is `index`, in the order of the groups.
pub open spec fn inner_instructions_of(
    groups: Seq<InnerInstructionsView>,
    index: int,
) -> Seq<CompiledInstructionView> {
    groups.flat_map(select_for(index))
}

/// The resolution of each of a sequence of compiled instructions.
pub open spec fn resolved_all(
    message: VersionedMessageView,
    loaded: LoadedAddressesView,
    compiled: Seq<CompiledInstructionView>,
) -> Seq<InstructionView> {
    Seq::new(compiled.len(), |k: int| resolved_instruction(message, loaded, compiled[k]))
}

/// What the top-level instruction at `index` contributes to the output: its
/// own resolution, then that of each of its inner instructions.
pub open spec fn instruction_slot(
    groups: Seq<InnerInstructionsView>,
    message: VersionedMessageView,
    loaded: LoadedAddressesView,
    index: int,
) -> Seq<InstructionView> {
    seq![resolved_instruction(message, loaded, message.message().instructions[index])]
        + resolved_all(message, loaded, inner_instructions_of(groups, index))
}

/// The contributions of the first `count` top-level instructions.
pub open spec fn instruction_slots(
    groups: Seq<InnerInstructionsView>,
    message: VersionedMessageView,
    loaded: LoadedAddressesView,
    count: int,
) -> Seq<Seq<InstructionView>> {
    Seq::new(count as nat, |i: int| instruction_slot(groups, message, loaded, i))
}

/// Every instruction that a transaction ran, resolved: each top-level
/// instruction of the message in order, each followed at once by its inner
/// instructions.
pub open spec fn extracted_instructions(
    groups: Seq<InnerInstructionsView>,
    message: VersionedMessageView,
    loaded: LoadedAddressesView,
) -> Seq<InstructionView> {
    instruction_slots(
        groups,
        message,
        loaded,
        message.message().instructions.len() as int,
    ).flatten()
}

/// The groups of inner instructions that a metadata record holds; a record
/// without inner instructions holds none.
pub open spec fn recorded_groups(meta: TransactionStatusMetaView) -> Seq<InnerInstructionsView> {
    match meta.inner_instructions {
        Some(groups) => groups,
        None => Seq::empty(),
    }
}

/// The place in the output at which the top-level instruction at `index`
/// stands: behind everything that the top-level instructions before it
/// contribute.
pub open spec fn top_level_position(
    groups: Seq<InnerInstructionsView>,
    message: VersionedMessageView,
    loaded: LoadedAddressesView,
    index: int,
) -> int {
    instruction_slots(groups, message, loaded, index).flatten().len() as int
}

/// The contributions of the top-level instructions up to `count` are those
/// up to `index`, then that of `index`, then the later ones.
proof fn lemma_slots_around(
    groups: Seq<InnerInstructionsView>,
    message: VersionedMessageView,
    loaded: LoadedAddressesView,
    index: int,
    count: int,
)
    requires
        0 <= index < count,
    ensures
        instruction_slots(groups, message, loaded, count).flatten() == instruction_slots(
            groups,
            message,
            loaded,
            index,
        ).flatten() + instruction_slot(groups, message, loaded, index) + instruction_slots(
            groups,
            message,
            loaded,
            count,
        ).skip(index + 1).flatten(),
{
    let all = instruction_slots(groups, message, loaded, count);
    let before = instruction_slots(groups, message, loaded, index);
    let slot = instruction_slot(groups, message, loaded, index);
    let after = all.skip(index + 1);
    assert(all =~= before.push(slot) + after);
    lemma_flatten_concat(before.push(slot), after);
    before.lemma_flatten_push(slot);
}

/// Every top-level instruction of the message stands in the output, at its
/// place, resolved: with as many accounts as the compiled instruction has
/// account indices, in the same order. This holds of legacy and of version 0
/// messages, well formed or not.
pub proof fn lemma_top_level_instruction(
    groups: Seq<InnerInstructionsView>,
    message: VersionedMessageView,
    loaded: LoadedAddressesView,
    index: int,
)
    requires
        0 <= index < message.message().instructions.len(),
    ensures
        0 <= top_level_position(groups, message, loaded, index) < extracted_instructions(
            groups,
            message,
            loaded,
        ).len(),
        extracted_instructions(groups, message, loaded)[top_level_position(
            groups,
            message,
            loaded,
            index,
        )] == resolved_instruction(message, loaded, message.message().instructions[index]),
        resolved_instruction(
            message,
            loaded,
            message.message().instructions[index],
        ).accounts.len() == message.message().instructions[index].accounts.len(),
        forall|k: int|
            0 <= k < message.message().instructions[index].accounts.len()
                ==> #[trigger] resolved_instruction(
                message,
                loaded,
                message.message().instructions[index],
            ).accounts[k] == resolved_account(
                message,
                loaded,
                message.message().instructions[index].accounts[k] as int,
            ),
{
    lemma_slots_around(
        groups,
        message,
        loaded,
        index,
        message.message().instructions.len() as int,
    );
    lemma_accounts_follow_indices(message, loaded, message.message().instructions[index]);
}

/// A message without top-level instructions gives an empty output, whatever
/// the groups of inner instructions hold; and an extraction from a wire
/// record then reads no payload, so it cannot fail.
pub proof fn lemma_no_instructions_no_output(
    groups: Seq<InnerInstructionsView>,
    wire: Seq<UiInnerInstructionsView>,
    message: VersionedMessageView,
    loaded: LoadedAddressesView,
)
    requires
        message.message().instructions.len() == 0,
    ensures
        extracted_instructions(groups, message, loaded) == Seq::<InstructionView>::empty(),
        visited_groups_decode(wire, 0),
{
    assert(instruction_slots(groups, message, loaded, 0) =~= Seq::empty());
}

/// Groups that hold no instruction give no inner instruction.
proof fn lemma_empty_groups_give_nothing(groups: Seq<InnerInstructionsView>, index: int)
    requires
        forall|g: int| 0 <= g < groups.len() ==> (#[trigger] groups[g]).instructions.len() == 0,
    ensures
        inner_instructions_of(groups, index) == Seq::<CompiledInstructionView>::empty(),
    decreases groups.len(),
{
    if groups.len() == 0 {
        assert(groups.map_values(select_for(index)) =~= Seq::empty());
    } else {
        let shorter = groups.drop_last();
        assert forall|g: int| 0 <= g < shorter.len() implies (#[trigger] shorter[g]).instructions.len()
            == 0 by {
            assert(shorter[g] == groups[g]);
        }
        lemma_empty_groups_give_nothing(shorter, index);
        shorter.lemma_flat_map_push(select_for(index), groups.last());
        assert(shorter.push(groups.last()) =~= groups);
        assert(group_instructions_for(groups.last(), index) =~= Seq::empty());
        assert(inner_instructions_of(groups, index) =~= Seq::empty());
    }
}

/// A record whose groups all hold no instruction behaves as a record
/// without inner instructions: the output is the top-level instructions
/// alone.
pub proof fn lemma_empty_groups_are_no_groups(
    groups: Seq<InnerInstructionsView>,
    message: VersionedMessageView,
    loaded: LoadedAddressesView,
)
    requires
        forall|g: int| 0 <= g < groups.len() ==> (#[trigger] groups[g]).instructions.len() == 0,
    ensures
        extracted_instructions(groups, message, loaded) == extracted_instructions(
            Seq::empty(),
            message,
            loaded,
        ),
{
    let count = message.message().instructions.len() as int;
    let none = Seq::<InnerInstructionsView>::empty();
    assert forall|i: int| 0 <= i < count implies instruction_slot(groups, message, loaded, i)
        == instruction_slot(none, message, loaded, i) by {
        lemma_empty_groups_give_nothing(groups, i);
        lemma_empty_groups_give_nothing(none, i);
    }
    assert(instruction_slots(groups, message, loaded, count) =~= instruction_slots(
        none,
        message,
        loaded,
        count,
    ));
}

/// A group contributes nothing to a top-level instruction that is not its
/// parent, so the inner instructions of `index` are the same with the group
/// put in at any place.
proof fn lemma_inner_instructions_without(
    groups: Seq<InnerInstructionsView>,
    group: InnerInstructionsView,
    place: int,
    index: int,
)
    requires
        0 <= place <= groups.len(),
        group.index as int != index,
    ensures
        inner_instructions_of(groups.insert(place, group), index) == inner_instructions_of(
            groups,
            index,
        ),
{
    let select = select_for(index);
    let before = groups.take(place);
    let after = groups.skip(place);
    assert(groups.insert(place, group) =~= before.push(group) + after);
    assert(groups =~= before + after);
    assert((before.push(group) + after).map_values(select) =~= before.map_values(select).push(
        select(group),
    ) + after.map_values(select));
    assert((before + after).map_values(select) =~= before.map_values(select) + after.map_values(
        select,
    ));
    lemma_flatten_concat(before.map_values(select).push(select(group)), after.map_values(select));
    lemma_flatten_concat(before.map_values(select), after.map_values(select));
    before.map_values(select).lemma_flatten_push(select(group));
    assert(select(group) =~= Seq::empty());
    assert(before.map_values(select).flatten() + select(group) =~= before.map_values(
        select,
    ).flatten());
}

/// A group whose parent index is that of no top-level instruction is
/// ignored: the output is the same with the group, at any place among the
/// groups, and without it.
pub proof fn lemma_unmatched_group_is_ignored(
    groups: Seq<InnerInstructionsView>,
    group: InnerInstructionsView,
    place: int,
    message: VersionedMessageView,
    loaded: LoadedAddressesView,
)
    requires
        0 <= place <= groups.len(),
        group.index >= message.message().instructions.len(),
    ensures
        extracted_instructions(groups.insert(place, group), message, loaded)
            == extracted_instructions(groups, message, loaded),
{
    let count = message.message().instructions.len() as int;
    let with = groups.insert(place, group);
    assert forall|i: int| 0 <= i < count implies instruction_slot(with, message, loaded, i)
        == instruction_slot(groups, message, loaded, i) by {
        lemma_inner_instructions_without(groups, group, place, i);
    }
    assert(instruction_slots(with, message, loaded, count) =~= instruction_slots(
        groups,
        message,
        loaded,
        count,
    ));
}

/// In a wire record, a group whose parent index is that of no top-level
/// instruction is not read: with the group, at any place among the groups,
/// and without it, the same payloads must decode and the same groups reach
/// the extraction. So such a group cannot make the extraction fail, whatever
/// its payloads hold.
pub proof fn lemma_unmatched_wire_group_is_not_read(
    groups: Seq<UiInnerInstructionsView>,
    group: UiInnerInstructionsView,
    place: int,
    count: int,
)
    requires
        0 <= place <= groups.len(),
        group.index >= count,
    ensures
        visited_groups_decode(groups.insert(place, group), count) == visited_groups_decode(
            groups,
            count,
        ),
        decoded_visited_groups(groups.insert(place, group), count) == decoded_visited_groups(
            groups,
            count,
        ),
{
    let with = groups.insert(place, group);
    let select = select_visited(count);
    if visited_groups_decode(groups, count) {
        assert forall|g: int|
            0 <= g < with.len() && is_visited(#[trigger] with[g], count) implies group_decodes(
            with[g],
        ) by {
            if g < place {
                assert(with[g] == groups[g]);
            } else if g > place {
                assert(with[g] == groups[g - 1]);
            }
        }
    }
    if visited_groups_decode(with, count) {
        assert forall|g: int|
            0 <= g < groups.len() && is_visited(#[trigger] groups[g], count) implies group_decodes(
            groups[g],
        ) by {
            if g < place {
                assert(with[g] == groups[g]);
            } else {
                assert(with[g + 1] == groups[g]);
            }
        }
    }
    let before = groups.take(place);
    let after = groups.skip(place);
    assert(with =~= before.push(group) + after);
    assert(groups =~= before + after);
    lemma_filter_map_add(before.push(group), after, select);
    lemma_filter_map_add(before, after, select);
    assert(before.push(group).drop_last() =~= before);
    assert(before.push(group).filter_map(select) == before.filter_map(select));
}

/// Selecting from a concatenation is concatenating the selections.
proof fn lemma_filter_map_add<A, B>(first: Seq<A>, second: Seq<A>, select: spec_fn(A) -> Option<B>)
    ensures
        (first + second).filter_map(select) == first.filter_map(select) + second.filter_map(
            select,
        ),
    decreases second.len(),
{
    if second.len() == 0 {
        assert(first + second =~= first);
        assert(first.filter_map(select) + second.filter_map(select) =~= first.filter_map(
            select,
        ));
    } else {
        assert((first + second).drop_last() =~= first + second.drop_last());
        lemma_filter_map_add(first, second.drop_last(), select);
        assert((first + second).last() == second.last());
        match select(second.last()) {
            Some(kept) => {
                assert((first + second).filter_map(select) =~= first.filter_map(select)
                    + second.filter_map(select));
            },
            None => {},
        }
    }
}

/// Resolving one more compiled instruction extends the resolved sequence by
/// its resolution.
proof fn lemma_resolved_all_push(
    message: VersionedMessageView,
    loaded: LoadedAddressesView,
    compiled: Seq<CompiledInstructionView>,
    next: CompiledInstructionView,
)
    ensures
        resolved_all(message, loaded, compiled.push(next)) == resolved_all(
            message,
            loaded,
            compiled,
        ).push(resolved_instruction(message, loaded, next)),
{
    assert(resolved_all(message, loaded, compiled.push(next)) =~= resolved_all(
        message,
        loaded,
        compiled,
    ).push(resolved_instruction(message, loaded, next)));
}

/// Resolving a concatenation is concatenating the resolutions.
proof fn lemma_resolved_all_add(
    message: VersionedMessageView,
    loaded: LoadedAddressesView,
    first: Seq<CompiledInstructionView>,
    second: Seq<CompiledInstructionView>,
)
    ensures
        resolved_all(message, loaded, first + second) == resolved_all(message, loaded, first)
            + resolved_all(message, loaded, second),
{
    assert(resolved_all(message, loaded, first + second) =~= resolved_all(message, loaded, first)
        + resolved_all(message, loaded, second));
}

/// Appends to `out` the resolution of every instruction of `group`.
fn append_group(
    out: &mut Vec<Instruction>,
    group: &InnerInstructions,
    message: &VersionedMessage,
    loaded_addresses: &LoadedAddresses,
)
    ensures
        final(out).deep_view() == old(out).deep_view() + resolved_all(
            message@,
            loaded_addresses@,
            group_instructions(group@),
        ),
{
    let ghost before = out.deep_view();
    let mut j: usize = 0;
    assert(group_instructions(group@).take(0) =~= Seq::empty());
    assert(out.deep_view() =~= before + resolved_all(
        message@,
        loaded_addresses@,
        group_instructions(group@).take(0),
    ));
    while j < group.instructions.len()
        invariant
            j <= group.instructions.len(),
            out.deep_view() == before + resolved_all(
                message@,
                loaded_addresses@,
                group_instructions(group@).take(j as int),
            ),
        decreases group.instructions.len() - j,
    {
        let ghost so_far = out.deep_view();
        let resolved = resolve_instruction(
            message,
            loaded_addresses,
            &group.instructions[j].instruction,
        );
        out.push(resolved);
        proof {
            let compiled = group_instructions(group@);
            assert(compiled[j as int] == group.instructions[j as int]@.instruction);
            assert(compiled.take(j + 1) =~= compiled.take(j as int).push(compiled[j as int]));
            lemma_resolved_all_push(
                message@,
                loaded_addresses@,
                compiled.take(j as int),
                compiled[j as int],
            );
            assert(out.deep_view() =~= so_far.push(resolved@));
        }
        j += 1;
    }
    assert(group_instructions(group@).take(j as int) =~= group_instructions(group@));
}

/// Appends to `out` the resolution of every inner instruction of the
/// top-level instruction at `index`.
fn append_inner_instructions(
    out: &mut Vec<Instruction>,
    groups: &Vec<InnerInstructions>,
    index: usize,
    message: &VersionedMessage,
    loaded_addresses: &LoadedAddresses,
)
    ensures
        final(out).deep_view() == old(out).deep_view() + resolved_all(
            message@,
            loaded_addresses@,
            inner_instructions_of(groups.deep_view(), index as int),
        ),
{
    let ghost before = out.deep_view();
    let ghost all = groups.deep_view();
    let mut g: usize = 0;
    assert(all.take(0) =~= Seq::empty());
    assert(inner_instructions_of(all.take(0), index as int) =~= Seq::empty());
    assert(out.deep_view() =~= before + resolved_all(
        message@,
        loaded_addresses@,
        inner_instructions_of(all.take(0), index as int),
    ));
    while g < groups.len()
        invariant
            g <= groups.len(),
            all == groups.deep_view(),
            out.deep_view() == before + resolved_all(
                message@,
                loaded_addresses@,
                inner_instructions_of(all.take(g as int), index as int),
            ),
        decreases groups.len() - g,
    {
        let ghost so_far = inner_instructions_of(all.take(g as int), index as int);
        let group = &groups[g];
        proof {
            all.lemma_flat_map_take_append(select_for(index as int), g as int);
            assert(all[g as int] == group@);
            assert(inner_instructions_of(all.take(g + 1), index as int) == so_far
                + group_instructions_for(group@, index as int));
            lemma_resolved_all_add(
                message@,
                loaded_addresses@,
                so_far,
                group_instructions_for(group@, index as int),
            );
        }
        if group.index as usize == index {
            append_group(out, group, message, loaded_addresses);
        } else {
            assert(resolved_all(
                message@,
                loaded_addresses@,
                group_instructions_for(group@, index as int),
            ) =~= Seq::empty());
        }
        g += 1;
    }
    assert(all.take(g as int) =~= all);
}

/// Resolves every instruction that a transaction ran, given the groups of
/// inner instructions that its metadata recorded.
///
/// The output holds each top-level instruction of the message in order, each
/// followed at once by the inner instructions of the groups that name it as
/// their parent. Inner instructions are resolved against the key table of
/// the message itself.
pub fn extract_resolved_instructions(
    groups: &Vec<InnerInstructions>,
    message: &VersionedMessage,
    loaded_addresses: &LoadedAddresses,
) -> (instructions: Vec<Instruction>)
    ensures
        instructions.deep_view() == extracted_instructions(
            groups.deep_view(),
            message@,
            loaded_addresses@,
        ),
{
    let top_level = message.instructions();
    let mut out: Vec<Instruction> = Vec::new();
    let mut i: usize = 0;
    assert(out.deep_view() =~= instruction_slots(
        groups.deep_view(),
        message@,
        loaded_addresses@,
        0,
    ).flatten());
    while i < top_level.len()
        invariant
            i <= top_level.len(),
            top_level.deep_view() == message@.message().instructions,
            out.deep_view() == instruction_slots(
                groups.deep_view(),
                message@,
                loaded_addresses@,
                i as int,
            ).flatten(),
        decreases top_level.len() - i,
    {
        let ghost before = out.deep_view();
        let resolved = resolve_instruction(message, loaded_addresses, &top_level[i]);
        out.push(resolved);
        assert(out.deep_view() =~= before.push(resolved@));
        append_inner_instructions(&mut out, groups, i, message, loaded_addresses);
        proof {
            let slots = instruction_slots(
                groups.deep_view(),
                message@,
                loaded_addresses@,
                i as int,
            );
            let slot = instruction_slot(groups.deep_view(), message@, loaded_addresses@, i as int);
            assert(top_level.deep_view()[i as int] == top_level[i as int]@);
            assert(instruction_slots(groups.deep_view(), message@, loaded_addresses@, i + 1)
                =~= slots.push(slot));
            slots.lemma_flatten_push(slot);
            assert(out.deep_view() =~= before + slot);
        }
        i += 1;
    }
    out
}

/// The groups of inner instructions that a wire record holds; a record
/// without inner instructions holds none.
pub open spec fn wire_groups(meta: UiTransactionStatusMetaView) -> Seq<UiInnerInstructionsView> {
    match meta.inner_instructions {
        OptionSerializer::Present(groups) => groups,
        _ => Seq::empty(),
    }
}

/// Whether an extraction visits a group: its parent is one of the `count`
/// top-level instructions.
pub open spec fn is_visited(group: UiInnerInstructionsView, count: int) -> bool {
    (group.index as int) < count
}

/// Whether every payload that an extraction over `count` top-level
/// instructions reads is base58.
pub open spec fn visited_groups_decode(groups: Seq<UiInnerInstructionsView>, count: int) -> bool {
    forall|g: int|
        0 <= g < groups.len() && is_visited(#[trigger] groups[g], count) ==> group_decodes(
            groups[g],
        )
}

/// What a group of wire instructions gives to an extraction over `count`
/// top-level instructions: its decoded form if the extraction visits it.
pub open spec fn decoded_if_visited(group: UiInnerInstructionsView, count: int) -> Option<
    InnerInstructionsView,
> {
    if is_visited(group, count) {
        Some(decoded_group(group))
    } else {
        None
    }
}

/// The function from a group of wire instructions to what it gives to an
/// extraction over `count` top-level instructions.
pub open spec fn select_visited(count: int) -> spec_fn(UiInnerInstructionsView) -> Option<
    InnerInstructionsView,
> {
    |group: UiInnerInstructionsView| decoded_if_visited(group, count)
}

/// The groups that an extraction over `count` top-level instructions visits,
/// decoded.
pub open spec fn decoded_visited_groups(
    groups: Seq<UiInnerInstructionsView>,
    count: int,
) -> Seq<InnerInstructionsView> {
    groups.filter_map(select_visited(count))
}

/// The loaded addresses that an extraction from a wire record resolves
/// against: those of the record, read from their text, for a version 0
/// message; none for a legacy message or where the record has none.
pub open spec fn wire_loaded_addresses(
    meta: UiTransactionStatusMetaView,
    message: VersionedMessageView,
) -> LoadedAddressesView {
    match (message, meta.loaded_addresses) {
        (VersionedMessageView::V0(_), OptionSerializer::Present(loaded)) => {
            normalized_loaded_addresses(loaded)
        },
        _ => LoadedAddressesView::empty(),
    }
}

/// Decodes the groups that an extraction over `count` top-level instructions
/// visits. A group that no top-level instruction matches is left out
/// unread.
pub fn decode_visited_groups(groups: &Vec<UiInnerInstructions>, count: usize) -> (outcome: Result<
    Vec<InnerInstructions>,
    CarbonError,
>)
    ensures
        match outcome {
            Ok(decoded) => visited_groups_decode(groups.deep_view(), count as int)
                && decoded.deep_view() == decoded_visited_groups(
                groups.deep_view(),
                count as int,
            ),
            Err(e) => !visited_groups_decode(groups.deep_view(), count as int) && e
                == CarbonError::InvalidInstructionData,
        },
{
    let ghost all = groups.deep_view();
    let mut decoded: Vec<InnerInstructions> = Vec::new();
    let mut g: usize = 0;
    assert(all.take(0) =~= Seq::empty());
    assert(decoded.deep_view() =~= all.take(0).filter_map(select_visited(count as int)));
    while g < groups.len()
        invariant
            g <= groups.len(),
            all == groups.deep_view(),
            forall|k: int|
                0 <= k < g && is_visited(#[trigger] all[k], count as int) ==> group_decodes(
                    all[k],
                ),
            decoded.deep_view() == all.take(g as int).filter_map(select_visited(count as int)),
        decreases groups.len() - g,
    {
        let ghost so_far = decoded.deep_view();
        proof {
            all.lemma_filter_map_take_succ(select_visited(count as int), g as int);
            assert(all[g as int] == groups@[g as int]@);
        }
        if (groups[g].index as usize) < count {
            match decode_group(&groups[g]) {
                Ok(group) => {
                    decoded.push(group);
                    assert(decoded.deep_view() =~= so_far.push(group@));
                },
                Err(e) => {
                    assert(is_visited(all[g as int], count as int));
                    return Err(e);
                },
            }
        }
        g += 1;
    }
    assert(all.take(g as int) =~= all);
    Ok(decoded)
}

} // verus!
