//! The nesting engine: from a flat sequence of instructions, each with the
//! depth of the call stack at which it ran, to the forest of calls.

use crate::instruction::{Instruction, InstructionView};
use vstd::prelude::*;

verus! {

/// An instruction together with the instructions that it called, in order.
#[derive(Debug, PartialEq, Eq)]
pub struct NestedInstruction {
    pub instruction: Instruction,
    /// The instructions that this one called directly.
    pub inner_instructions: Vec<NestedInstruction>,
}

/// The mathematical content of a [`NestedInstruction`].
pub struct NestedInstructionView {
    pub instruction: InstructionView,
    pub inner_instructions: Seq<NestedInstructionView>,
}

/// The mathematical content of a node: its instruction, and the content of
/// each of its children.
pub open spec fn nested_view(node: NestedInstruction) -> NestedInstructionView
    decreases node,
{
    NestedInstructionView {
        instruction: node.instruction@,
        inner_instructions: Seq::new(
            node.inner_instructions@.len(),
            |i: int|
                if 0 <= i < node.inner_instructions@.len() {
                    nested_view(node.inner_instructions@[i])
                } else {
                    arbitrary()
                },
        ),
    }
}

impl View for NestedInstruction {
    type V = NestedInstructionView;

    open spec fn view(&self) -> NestedInstructionView {
        nested_view(*self)
    }
}

impl DeepView for NestedInstruction {
    type V = NestedInstructionView;

    open spec fn deep_view(&self) -> NestedInstructionView {
        self@
    }
}

/// The children in the view of a node are the views of its children.
proof fn lemma_view_children(node: NestedInstruction)
    ensures
        node@.instruction == node.instruction@,
        node@.inner_instructions.len() == node.inner_instructions@.len(),
        forall|i: int|
            0 <= i < node.inner_instructions@.len() ==> #[trigger] node@.inner_instructions[i]
                == node.inner_instructions@[i]@,
{
}

/// A flat sequence of instructions, each with the depth at which it ran.
pub type Flat = Seq<(InstructionView, u32)>;

/// How many instructions at the start of `flat` ran deeper than `depth`:
/// the length of the longest prefix whose depths all exceed `depth`.
pub open spec fn descendants(flat: Flat, depth: u32) -> int
    decreases flat.len(),
{
    if flat.len() > 0 && flat[0].1 > depth {
        1 + descendants(flat.drop_first(), depth)
    } else {
        0
    }
}

/// The forest of calls that a flat sequence stands for.
///
/// The first instruction is a root. The instructions that follow it for as
/// long as they run strictly deeper are its descendants, and nest among
/// themselves by the same rule. The first instruction that does not run
/// strictly deeper starts the next root: an instruction at the same depth
/// is a sibling, never a child.
pub open spec fn forest(flat: Flat) -> Seq<NestedInstructionView>
    decreases flat.len(),
    via forest_terminates
{
    if flat.len() == 0 {
        Seq::empty()
    } else {
        let rest = flat.drop_first();
        let below = descendants(rest, flat[0].1);
        seq![
            NestedInstructionView {
                instruction: flat[0].0,
                inner_instructions: forest(rest.take(below)),
            },
        ] + forest(rest.skip(below))
    }
}

#[via_fn]
proof fn forest_terminates(flat: Flat) {
    if flat.len() > 0 {
        lemma_descendants_bound(flat.drop_first(), flat[0].1);
    }
}

/// The descendants at the start of a sequence are some of its elements.
pub proof fn lemma_descendants_bound(flat: Flat, depth: u32)
    ensures
        0 <= descendants(flat, depth) <= flat.len(),
    decreases flat.len(),
{
    if flat.len() > 0 && flat[0].1 > depth {
        lemma_descendants_bound(flat.drop_first(), depth);
    }
}

/// The count of descendants is the one position that splits the sequence
/// into a prefix that runs deeper than `depth` and a rest that does not
/// start deeper.
proof fn lemma_descendants_is(flat: Flat, depth: u32, count: int)
    requires
        0 <= count <= flat.len(),
        forall|j: int| 0 <= j < count ==> (#[trigger] flat[j]).1 > depth,
        count < flat.len() ==> flat[count].1 <= depth,
    ensures
        descendants(flat, depth) == count,
    decreases flat.len(),
{
    if flat.len() > 0 && flat[0].1 > depth {
        let rest = flat.drop_first();
        assert forall|j: int| 0 <= j < count - 1 implies (#[trigger] rest[j]).1 > depth by {
            assert(rest[j] == flat[j + 1]);
        }
        if count - 1 < rest.len() {
            assert(rest[count - 1] == flat[count]);
        }
        lemma_descendants_is(rest, depth, count - 1);
    }
}

/// The elements that the count of descendants covers run deeper than
/// `depth`, and the element after them, if there is one, does not.
proof fn lemma_descendants_split(flat: Flat, depth: u32)
    ensures
        0 <= descendants(flat, depth) <= flat.len(),
        forall|j: int| 0 <= j < descendants(flat, depth) ==> (#[trigger] flat[j]).1 > depth,
        descendants(flat, depth) < flat.len() ==> flat[descendants(flat, depth)].1 <= depth,
    decreases flat.len(),
{
    if flat.len() > 0 && flat[0].1 > depth {
        let rest = flat.drop_first();
        lemma_descendants_split(rest, depth);
        let count = descendants(flat, depth);
        assert forall|j: int| 0 <= j < count implies (#[trigger] flat[j]).1 > depth by {
            if j > 0 {
                assert(rest[j - 1] == flat[j]);
            }
        }
        if count < flat.len() {
            assert(rest[count - 1] == flat[count]);
        }
    }
}

/// The node of `head`, with the forest of `below` as its children.
pub open spec fn tree(head: InstructionView, below: Flat) -> NestedInstructionView {
    NestedInstructionView { instruction: head, inner_instructions: forest(below) }
}

/// An instruction followed only by instructions that run deeper is the one
/// root of the forest, and they are its descendants.
proof fn lemma_forest_single(head: (InstructionView, u32), below: Flat)
    requires
        forall|j: int| 0 <= j < below.len() ==> (#[trigger] below[j]).1 > head.1,
    ensures
        forest(seq![head] + below) == seq![tree(head.0, below)],
{
    let flat = seq![head] + below;
    let rest = flat.drop_first();
    assert(rest =~= below);
    lemma_descendants_is(below, head.1, below.len() as int);
    assert(rest.take(below.len() as int) =~= below);
    assert(rest.skip(below.len() as int) =~= Seq::empty());
    assert(forest(Seq::<(InstructionView, u32)>::empty()) =~= Seq::empty());
    assert(forest(flat) =~= seq![tree(head.0, below)]);
}

/// Where the second of two sequences starts no deeper than any instruction
/// of the first, no instruction of the second nests under one of the first:
/// the forest of the whole is the forest of the first followed by that of
/// the second.
proof fn lemma_forest_split(first: Flat, second: Flat)
    requires
        second.len() > 0,
        forall|j: int| 0 <= j < first.len() ==> (#[trigger] first[j]).1 >= second[0].1,
    ensures
        forest(first + second) == forest(first) + forest(second),
    decreases first.len(),
{
    if first.len() == 0 {
        assert(first + second =~= second);
        assert(forest(first) =~= Seq::empty());
        assert(forest(first) + forest(second) =~= forest(second));
    } else {
        let whole = first + second;
        let head = first[0];
        let rest = first.drop_first();
        let whole_rest = whole.drop_first();
        assert(whole_rest =~= rest + second);
        lemma_descendants_split(rest, head.1);
        let below = descendants(rest, head.1);
        assert forall|j: int| 0 <= j < below implies (#[trigger] whole_rest[j]).1 > head.1 by {
            assert(whole_rest[j] == rest[j]);
        }
        if below < rest.len() {
            assert(whole_rest[below] == rest[below]);
        } else {
            assert(whole_rest[below] == second[0]);
            assert(first[0].1 >= second[0].1);
        }
        lemma_descendants_is(whole_rest, head.1, below);
        assert(whole_rest.take(below) =~= rest.take(below));
        assert(whole_rest.skip(below) =~= rest.skip(below) + second);
        assert forall|j: int| 0 <= j < rest.skip(below).len() implies (#[trigger] rest.skip(
            below,
        )[j]).1 >= second[0].1 by {
            assert(rest.skip(below)[j] == first[j + below + 1]);
        }
        lemma_forest_split(rest.skip(below), second);
        assert(whole[0] == head);
        assert(forest(whole) =~= forest(first) + forest(second));
    }
}

/// An instruction that is followed by one that runs no deeper has no child:
/// an instruction at the same depth is a sibling.
pub proof fn lemma_no_deeper_successor_no_child(flat: Flat)
    requires
        flat.len() >= 1,
        flat.len() >= 2 ==> flat[1].1 <= flat[0].1,
    ensures
        forest(flat) == seq![tree(flat[0].0, Seq::empty())] + forest(flat.drop_first()),
        forest(flat)[0].inner_instructions.len() == 0,
{
    let rest = flat.drop_first();
    if rest.len() > 0 {
        assert(rest[0] == flat[1]);
    }
    assert(descendants(rest, flat[0].1) == 0);
    assert(rest.take(0) =~= Seq::empty());
    assert(rest.skip(0) =~= rest);
    assert(forest(Seq::<(InstructionView, u32)>::empty()) =~= Seq::empty());
}

/// The first instruction of a sequence is the first root of its forest,
/// with its descendants below it.
proof fn lemma_forest_first(flat: Flat)
    requires
        flat.len() >= 1,
    ensures
        forest(flat).len() >= 1,
        forest(flat)[0] == tree(
            flat[0].0,
            flat.drop_first().take(descendants(flat.drop_first(), flat[0].1)),
        ),
{
}

/// An instruction that is followed by one that runs strictly deeper has it
/// as its first child.
pub proof fn lemma_deeper_successor_is_first_child(flat: Flat)
    requires
        flat.len() >= 2,
        flat[1].1 > flat[0].1,
    ensures
        forest(flat).len() >= 1,
        forest(flat)[0].instruction == flat[0].0,
        forest(flat)[0].inner_instructions.len() >= 1,
        forest(flat)[0].inner_instructions[0].instruction == flat[1].0,
{
    let rest = flat.drop_first();
    assert(rest[0] == flat[1]);
    lemma_descendants_bound(rest.drop_first(), flat[0].1);
    lemma_descendants_bound(rest, flat[0].1);
    let under = rest.take(descendants(rest, flat[0].1));
    assert(under[0] == flat[1]);
    lemma_forest_first(flat);
    lemma_forest_first(under);
}

/// The instructions of a tree, the parent before its children and the
/// children in order.
pub open spec fn tree_instructions(tree: NestedInstructionView) -> Seq<InstructionView>
    decreases tree,
{
    seq![tree.instruction] + forest_instructions(tree.inner_instructions)
}

/// The instructions of a forest, tree after tree.
pub open spec fn forest_instructions(trees: Seq<NestedInstructionView>) -> Seq<InstructionView>
    decreases trees,
{
    if trees.len() == 0 {
        Seq::empty()
    } else {
        tree_instructions(trees[0]) + forest_instructions(trees.subrange(1, trees.len() as int))
    }
}

/// The instructions of a flat sequence, without their depths.
pub open spec fn flat_instructions(flat: Flat) -> Seq<InstructionView> {
    Seq::new(flat.len(), |i: int| flat[i].0)
}

/// The instructions of a forest that starts with `first` are those of
/// `first`, then those of the rest.
proof fn lemma_forest_instructions_first(
    first: NestedInstructionView,
    rest: Seq<NestedInstructionView>,
)
    ensures
        forest_instructions(seq![first] + rest) == tree_instructions(first) + forest_instructions(
            rest,
        ),
{
    let trees = seq![first] + rest;
    assert(trees.subrange(1, trees.len() as int) =~= rest);
}

/// Nesting keeps every instruction, once and in its place: read tree after
/// tree, each parent before its children, the forest gives back the flat
/// sequence.
pub proof fn lemma_forest_keeps_instructions(flat: Flat)
    ensures
        forest_instructions(forest(flat)) == flat_instructions(flat),
    decreases flat.len(),
{
    if flat.len() == 0 {
        assert(forest_instructions(forest(flat)) =~= Seq::empty());
        assert(flat_instructions(flat) =~= Seq::empty());
    } else {
        let rest = flat.drop_first();
        lemma_descendants_bound(rest, flat[0].1);
        let below = descendants(rest, flat[0].1);
        let under = rest.take(below);
        let after = rest.skip(below);
        let first = tree(flat[0].0, under);
        lemma_forest_keeps_instructions(under);
        lemma_forest_keeps_instructions(after);
        lemma_forest_instructions_first(first, forest(after));
        assert(tree_instructions(first) == seq![flat[0].0] + flat_instructions(under));
        assert(flat_instructions(flat) =~= seq![flat[0].0] + flat_instructions(under)
            + flat_instructions(after));
    }
}

/// A node without children.
fn leaf(instruction: Instruction) -> (node: NestedInstruction)
    ensures
        node@ == tree(instruction@, Seq::empty()),
{
    let node = NestedInstruction { instruction, inner_instructions: Vec::new() };
    assert(node@.inner_instructions =~= Seq::empty());
    assert(forest(Seq::<(InstructionView, u32)>::empty()) =~= Seq::empty());
    node
}

/// The position in `flat` up to which the children of the open node at
/// `level` reach: the position of the next open node, or `done` for the
/// innermost one. At level -1 it is the position up to which the roots
/// reach.
pub open spec fn reach(at: Seq<int>, level: int, done: int) -> int {
    if 0 <= level + 1 < at.len() {
        at[level + 1]
    } else {
        done
    }
}

/// The position in `flat` behind which the open node at `level` lies: the
/// position of the open node around it, or -1 for the outermost one. At
/// the level past the innermost it is the position of the innermost open
/// node.
pub open spec fn floor(at: Seq<int>, level: int) -> int {
    if 0 < level <= at.len() {
        at[level - 1]
    } else {
        -1
    }
}

/// Every instruction between `position` and `done` runs deeper than the one
/// at `position`.
pub open spec fn deeper_after(flat: Flat, position: int, done: int) -> bool {
    forall|j: int| position < j < done ==> flat[position].1 < (#[trigger] flat[j]).1
}

/// No instruction between `from` and `to` runs shallower than `depth`.
pub open spec fn settled(flat: Flat, from: int, to: int, depth: u32) -> bool {
    forall|j: int| from < j < to ==> (#[trigger] flat[j]).1 >= depth
}

/// What holds of the open node at `level`: it stands for the instruction at
/// its position, its children are the forest of what lies between it and
/// the next open node, everything after it runs deeper, and nothing between
/// the open node around it and itself runs shallower.
pub open spec fn level_state(
    flat: Flat,
    open: Seq<(NestedInstructionView, u32)>,
    at: Seq<int>,
    done: int,
    level: int,
) -> bool {
    &&& 0 <= at[level]
    &&& floor(at, level) < at[level] < done
    &&& open[level] == (
        tree(flat[at[level]].0, flat.subrange(at[level] + 1, reach(at, level, done))),
        flat[at[level]].1,
    )
    &&& deeper_after(flat, at[level], done)
    &&& settled(flat, floor(at, level), at[level], flat[at[level]].1)
}

/// The state of the engine after the first `done` instructions of `flat`.
///
/// `open` is the chain of ancestors that are still open, outermost first,
/// each with its depth; `at` holds the position of each in `flat`. `roots`
/// is the forest of what lies before the outermost open node.
pub open spec fn engine_state(
    flat: Flat,
    roots: Seq<NestedInstructionView>,
    open: Seq<(NestedInstructionView, u32)>,
    at: Seq<int>,
    done: int,
) -> bool {
    &&& 0 <= done <= flat.len()
    &&& open.len() == at.len()
    &&& forall|k: int| 0 <= k < at.len() ==> #[trigger] level_state(flat, open, at, done, k)
    &&& roots == forest(flat.subrange(0, reach(at, -1, done)))
}

/// An instruction with everything after it up to `done` running deeper is
/// the one root of the forest from its position to `done`.
proof fn lemma_closed_is_forest(flat: Flat, position: int, done: int)
    requires
        0 <= position < done <= flat.len(),
        deeper_after(flat, position, done),
    ensures
        forest(flat.subrange(position, done)) == seq![
            tree(flat[position].0, flat.subrange(position + 1, done)),
        ],
{
    let below = flat.subrange(position + 1, done);
    assert forall|j: int| 0 <= j < below.len() implies (#[trigger] below[j]).1
        > flat[position].1 by {
        assert(below[j] == flat[position + 1 + j]);
    }
    lemma_forest_single(flat[position], below);
    assert(seq![flat[position]] + below =~= flat.subrange(position, done));
}

/// Where nothing between `from` and `position` runs shallower than the
/// instruction at `position`, the forest from behind `from` up to `done` is
/// the forest up to `position` followed by the forest from `position`.
proof fn lemma_forest_join(flat: Flat, from: int, position: int, done: int)
    requires
        -1 <= from < position < done <= flat.len(),
        settled(flat, from, position, flat[position].1),
    ensures
        forest(flat.subrange(from + 1, done)) == forest(flat.subrange(from + 1, position))
            + forest(flat.subrange(position, done)),
{
    let first = flat.subrange(from + 1, position);
    let second = flat.subrange(position, done);
    assert(second[0] == flat[position]);
    assert forall|j: int| 0 <= j < first.len() implies (#[trigger] first[j]).1
        >= second[0].1 by {
        assert(first[j] == flat[from + 1 + j]);
    }
    lemma_forest_split(first, second);
    assert(first + second =~= flat.subrange(from + 1, done));
}

/// Closing the innermost open node under the open node around it keeps
/// the state of the engine.
proof fn lemma_close_under_parent(
    flat: Flat,
    roots: Seq<NestedInstructionView>,
    open: Seq<(NestedInstructionView, u32)>,
    at: Seq<int>,
    done: int,
    parent: NestedInstructionView,
)
    requires
        engine_state(flat, roots, open, at, done),
        at.len() >= 2,
        parent.instruction == open[at.len() - 2].0.instruction,
        parent.inner_instructions == open[at.len() - 2].0.inner_instructions.push(
            open[at.len() - 1].0,
        ),
    ensures
        engine_state(
            flat,
            roots,
            open.take(at.len() - 2).push((parent, open[at.len() - 2].1)),
            at.drop_last(),
            done,
        ),
{
    let top = at.len() - 1;
    let shorter = at.drop_last();
    let after = open.take(top - 1).push((parent, open[top - 1].1));
    assert(level_state(flat, open, at, done, top));
    assert(level_state(flat, open, at, done, top - 1));
    let position = at[top];
    let parent_at = at[top - 1];
    lemma_closed_is_forest(flat, position, done);
    lemma_forest_join(flat, parent_at, position, done);
    assert(parent.inner_instructions =~= forest(flat.subrange(parent_at + 1, position))
        + forest(flat.subrange(position, done)));
    assert forall|k: int| 0 <= k < shorter.len() implies #[trigger] level_state(
        flat,
        after,
        shorter,
        done,
        k,
    ) by {
        assert(level_state(flat, open, at, done, k));
        assert(floor(shorter, k) == floor(at, k));
        if k < top - 1 {
            assert(after[k] == open[k]);
            assert(reach(shorter, k, done) == reach(at, k, done));
        } else {
            assert(reach(shorter, k, done) == done);
        }
    }
    assert(reach(shorter, -1, done) == reach(at, -1, done));
}

/// Closing the only open node as a root keeps the state of the engine.
proof fn lemma_close_as_root(
    flat: Flat,
    roots: Seq<NestedInstructionView>,
    open: Seq<(NestedInstructionView, u32)>,
    at: Seq<int>,
    done: int,
)
    requires
        engine_state(flat, roots, open, at, done),
        at.len() == 1,
    ensures
        engine_state(flat, roots.push(open[0].0), Seq::empty(), Seq::empty(), done),
{
    assert(level_state(flat, open, at, done, 0));
    let position = at[0];
    lemma_closed_is_forest(flat, position, done);
    lemma_forest_join(flat, -1, position, done);
    assert(roots.push(open[0].0) =~= forest(flat.subrange(0, position)) + forest(
        flat.subrange(position, done),
    ));
}

/// While the engine closes the ancestors of an incoming instruction of depth
/// `depth`, nothing behind the innermost open node runs shallower than it.
proof fn lemma_settled_after_close(
    flat: Flat,
    roots: Seq<NestedInstructionView>,
    open: Seq<(NestedInstructionView, u32)>,
    at: Seq<int>,
    done: int,
    depth: u32,
)
    requires
        engine_state(flat, roots, open, at, done),
        at.len() > 0,
        open[at.len() - 1].1 >= depth,
        settled(flat, floor(at, at.len() as int), done, depth),
    ensures
        settled(flat, floor(at.drop_last(), at.len() - 1), done, depth),
{
    let top = at.len() - 1;
    assert(level_state(flat, open, at, done, top));
    assert(floor(at.drop_last(), top) == floor(at, top));
}

/// Opening the incoming instruction under the innermost open node, or as
/// the outermost where none is open, keeps the state of the engine.
proof fn lemma_open_incoming(
    flat: Flat,
    roots: Seq<NestedInstructionView>,
    open: Seq<(NestedInstructionView, u32)>,
    at: Seq<int>,
    done: int,
)
    requires
        engine_state(flat, roots, open, at, done),
        done < flat.len(),
        at.len() > 0 ==> open[at.len() - 1].1 < flat[done].1,
        settled(flat, floor(at, at.len() as int), done, flat[done].1),
    ensures
        engine_state(
            flat,
            roots,
            open.push((tree(flat[done].0, Seq::empty()), flat[done].1)),
            at.push(done),
            done + 1,
        ),
{
    let longer = at.push(done);
    let after = open.push((tree(flat[done].0, Seq::empty()), flat[done].1));
    assert(flat.subrange(done + 1, done + 1) =~= Seq::empty());
    if at.len() > 0 {
        assert(level_state(flat, open, at, done, at.len() - 1));
    }
    assert forall|k: int| 0 <= k < longer.len() implies #[trigger] level_state(
        flat,
        after,
        longer,
        done + 1,
        k,
    ) by {
        if k < at.len() {
            assert(level_state(flat, open, at, done, k));
            assert(after[k] == open[k]);
            assert(floor(longer, k) == floor(at, k));
            assert(reach(longer, k, done + 1) == reach(at, k, done));
            let top = at.len() - 1;
            assert(level_state(flat, open, at, done, top));
            if k < top {
                lemma_positions_increase(flat, open, at, done, k, top);
            }
            assert(flat[at[k]].1 < flat[done].1);
        } else {
            assert(floor(longer, k) == floor(at, at.len() as int));
        }
    }
    assert(reach(longer, -1, done + 1) == reach(at, -1, done));
}

/// The positions of the open nodes increase from the outermost inward.
proof fn lemma_positions_increase(
    flat: Flat,
    open: Seq<(NestedInstructionView, u32)>,
    at: Seq<int>,
    done: int,
    lower: int,
    upper: int,
)
    requires
        forall|k: int| 0 <= k < at.len() ==> #[trigger] level_state(flat, open, at, done, k),
        0 <= lower < upper < at.len(),
    ensures
        at[lower] < at[upper] < done,
    decreases upper - lower,
{
    assert(level_state(flat, open, at, done, upper));
    if lower + 1 < upper {
        lemma_positions_increase(flat, open, at, done, lower, upper - 1);
    }
}

/// Closes the innermost open node: it becomes the last child of the open
/// node around it, or the last root where it is the outermost.
fn close_innermost(
    roots: &mut Vec<NestedInstruction>,
    open: &mut Vec<(NestedInstruction, u32)>,
    Ghost(flat): Ghost<Flat>,
    Ghost(at): Ghost<Seq<int>>,
    Ghost(done): Ghost<int>,
)
    requires
        old(open).len() > 0,
        engine_state(flat, old(roots).deep_view(), old(open).deep_view(), at, done),
    ensures
        final(open).len() == old(open).len() - 1,
        engine_state(flat, final(roots).deep_view(), final(open).deep_view(), at.drop_last(), done),
{
    let ghost before = open.deep_view();
    let ghost roots_before = roots.deep_view();
    let ghost top = at.len() - 1;
    let (closed, _) = open.pop().unwrap();
    assert(closed@ == before[top].0);
    if open.len() > 0 {
        let (mut parent, depth) = open.pop().unwrap();
        let ghost parent_before = parent@;
        assert(parent_before == before[top - 1].0);
        assert(depth == before[top - 1].1);
        let ghost rest = open.deep_view();
        let ghost old_parent = parent;
        parent.inner_instructions.push(closed);
        proof {
            lemma_view_children(old_parent);
            lemma_view_children(parent);
            assert(parent.inner_instructions@ == old_parent.inner_instructions@.push(closed));
            assert(parent@.inner_instructions =~= parent_before.inner_instructions.push(closed@));
            lemma_close_under_parent(flat, roots_before, before, at, done, parent@);
        }
        open.push((parent, depth));
        assert(rest =~= before.take(top - 1));
        assert(open.deep_view() =~= before.take(top - 1).push((parent@, depth)));
    } else {
        roots.push(closed);
        proof {
            lemma_close_as_root(flat, roots_before, before, at, done);
            assert(roots.deep_view() =~= roots_before.push(closed@));
            assert(open.deep_view() =~= Seq::empty());
            assert(at.drop_last() =~= Seq::empty());
        }
    }
}

/// Rebuilds the forest of calls from a flat sequence of instructions, each
/// with the depth of the call stack at which it ran.
///
/// The engine reads the sequence once, from left to right, and keeps the
/// chain of ancestors that are still open. An incoming instruction closes
/// every open ancestor that is not strictly shallower than it, and opens
/// under the innermost one that is left, or as a new root where none is. An
/// instruction at the depth of the one before it is its sibling, not its
/// child.
pub fn nest(instructions: Vec<(Instruction, u32)>) -> (roots: Vec<NestedInstruction>)
    ensures
        roots.deep_view() == forest(instructions.deep_view()),
{
    let ghost flat = instructions.deep_view();
    let mut roots: Vec<NestedInstruction> = Vec::new();
    let mut open: Vec<(NestedInstruction, u32)> = Vec::new();
    let ghost mut at: Seq<int> = Seq::empty();
    proof {
        assert(flat.subrange(0, 0) =~= Seq::empty());
        assert(forest(Seq::<(InstructionView, u32)>::empty()) =~= Seq::empty());
        assert(roots.deep_view() =~= Seq::empty());
    }
    for incoming in iter: instructions
        invariant
            flat == iter.seq().map_values(|item: (Instruction, u32)| item.deep_view()),
            engine_state(flat, roots.deep_view(), open.deep_view(), at, iter.index() as int),
            floor(at, at.len() as int) == iter.index() - 1,
    {
        let ghost i = iter.index() as int;
        let (instruction, depth) = incoming;
        assert(flat[i] == (instruction@, depth));
        while open.len() > 0 && open[open.len() - 1].1 >= depth
            invariant
                0 <= i < flat.len(),
                flat[i].1 == depth,
                engine_state(flat, roots.deep_view(), open.deep_view(), at, i),
                settled(flat, floor(at, at.len() as int), i, depth),
            decreases open.len(),
        {
            proof {
                assert(open.deep_view()[at.len() - 1].1 == open@[at.len() - 1].1);
                lemma_settled_after_close(flat, roots.deep_view(), open.deep_view(), at, i, depth);
            }
            close_innermost(&mut roots, &mut open, Ghost(flat), Ghost(at), Ghost(i));
            proof {
                at = at.drop_last();
            }
        }
        let node = leaf(instruction);
        let ghost before = open.deep_view();
        proof {
            if at.len() > 0 {
                assert(before[at.len() - 1].1 == open@[at.len() - 1].1);
            }
            lemma_open_incoming(flat, roots.deep_view(), before, at, i);
        }
        open.push((node, depth));
        proof {
            assert(open.deep_view() =~= before.push((node@, depth)));
            at = at.push(i);
        }
    }
    while open.len() > 0
        invariant
            engine_state(flat, roots.deep_view(), open.deep_view(), at, flat.len() as int),
        decreases open.len(),
    {
        close_innermost(&mut roots, &mut open, Ghost(flat), Ghost(at), Ghost(flat.len() as int));
        proof {
            at = at.drop_last();
        }
    }
    proof {
        assert(at.len() == 0);
        assert(flat.subrange(0, flat.len() as int) =~= flat);
    }
    roots
}

} // verus!
