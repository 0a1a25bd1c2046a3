use carbon_core::instruction::Instruction;
use carbon_core::nesting::{nest, NestedInstruction};
use carbon_core::pubkey::Pubkey;

fn instruction(tag: u8) -> Instruction {
    Instruction { program_id: Pubkey::new_from_array([tag; 32]), accounts: vec![], data: vec![tag] }
}

fn flat(depths: &[u32]) -> Vec<(Instruction, u32)> {
    depths.iter().enumerate().map(|(i, depth)| (instruction(i as u8), *depth)).collect()
}

fn node(tag: u8, children: Vec<NestedInstruction>) -> NestedInstruction {
    NestedInstruction { instruction: instruction(tag), inner_instructions: children }
}

#[test]
fn nest_of_nothing_is_an_empty_forest() {
    assert_eq!(nest(vec![]), vec![]);
}

#[test]
fn nest_of_one_instruction_is_one_root() {
    assert_eq!(nest(flat(&[4])), vec![node(0, vec![])]);
}

#[test]
fn nest_builds_two_roots_with_a_chain_under_the_first() {
    let forest = nest(flat(&[0, 1, 2, 1, 0]));
    assert_eq!(forest.len(), 2);
    assert_eq!(
        forest,
        vec![node(0, vec![node(1, vec![node(2, vec![])]), node(3, vec![])]), node(4, vec![])]
    );
    assert_eq!(forest[0].inner_instructions[0].inner_instructions.len(), 1);
    assert!(forest[1].inner_instructions.is_empty());
}

#[test]
fn nest_makes_equal_depths_siblings() {
    let forest = nest(flat(&[0, 1, 1]));
    assert_eq!(forest, vec![node(0, vec![node(1, vec![]), node(2, vec![])])]);
}

#[test]
fn nest_of_equal_depths_is_all_roots() {
    let forest = nest(flat(&[1, 1, 1]));
    assert_eq!(forest, vec![node(0, vec![]), node(1, vec![]), node(2, vec![])]);
}

#[test]
fn nest_of_rising_depths_is_one_chain() {
    let forest = nest(flat(&[1, 2, 3, 4]));
    assert_eq!(forest, vec![node(0, vec![node(1, vec![node(2, vec![node(3, vec![])])])])]);
}

#[test]
fn nest_of_falling_depths_is_all_roots() {
    let forest = nest(flat(&[3, 2, 1]));
    assert_eq!(forest, vec![node(0, vec![]), node(1, vec![]), node(2, vec![])]);
}

#[test]
fn nest_attaches_under_the_nearest_shallower_ancestor() {
    // The jump from depth 1 to depth 3 still nests; the 2 that follows is a
    // sibling of the 3, under the 1.
    let forest = nest(flat(&[1, 3, 2, 5, 1, 2]));
    assert_eq!(
        forest,
        vec![
            node(0, vec![node(1, vec![]), node(2, vec![node(3, vec![])])]),
            node(4, vec![node(5, vec![])]),
        ]
    );
}

#[test]
fn nest_keeps_every_instruction_once_and_in_order() {
    fn collect(forest: &[NestedInstruction], out: &mut Vec<u8>) {
        for tree in forest {
            out.push(tree.instruction.data[0]);
            collect(&tree.inner_instructions, out);
        }
    }
    let depths = [2, 3, 3, 1, 4, 4, 2, 9, 1, 1, 5, 0, 7];
    let forest = nest(flat(&depths));
    let mut seen = Vec::new();
    collect(&forest, &mut seen);
    assert_eq!(seen, (0..depths.len() as u8).collect::<Vec<u8>>());
}

/// The forest read off the parents: the parent of an instruction is the
/// nearest one before it that runs strictly shallower.
fn forest_by_parents(depths: &[u32]) -> Vec<NestedInstruction> {
    fn build(depths: &[u32], parents: &[Option<usize>], of: Option<usize>) -> Vec<NestedInstruction> {
        (0..depths.len())
            .filter(|i| parents[*i] == of)
            .map(|i| node(i as u8, build(depths, parents, Some(i))))
            .collect()
    }
    let parents: Vec<Option<usize>> = (0..depths.len())
        .map(|i| (0..i).rev().find(|j| depths[*j] < depths[i]))
        .collect();
    build(depths, &parents, None)
}

#[test]
fn nest_agrees_with_the_nearest_shallower_parent() {
    let mut state: u64 = 7;
    for round in 0..300 {
        let len = round % 12;
        let depths: Vec<u32> = (0..len)
            .map(|_| {
                state = state.wrapping_mul(6364136223846793005).wrapping_add(1442695040888963407);
                ((state >> 33) % 5) as u32
            })
            .collect();
        assert_eq!(nest(flat(&depths)), forest_by_parents(&depths), "{depths:?}");
    }
}
