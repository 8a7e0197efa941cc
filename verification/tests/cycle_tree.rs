//! Flattening of the repeat tree.
use rust_cycle::cycle_tree::flatten;
use rust_cycle::cycle_tree::CycleTree;

#[test]
fn simple() {
    let expected: Vec<u32> = vec![0, 1, 2];
    let mut result: Vec<u32> = Vec::new();
    flatten(
        &CycleTree::Node((
            1,
            vec![CycleTree::Leaf(0), CycleTree::Leaf(1), CycleTree::Leaf(2)],
        )),
        &mut result,
    );
    assert_eq!(expected, result);
}

#[test]
fn simple_cycle() {
    let expected: Vec<u32> = vec![0, 1, 2, 0, 1, 2];
    let mut result: Vec<u32> = Vec::new();
    flatten(
        &CycleTree::Node((
            2,
            vec![CycleTree::Leaf(0), CycleTree::Leaf(1), CycleTree::Leaf(2)],
        )),
        &mut result,
    );
    assert_eq!(expected, result);
}

#[test]
fn nested_cycle() {
    let expected: Vec<u32> = vec![0, 0, 0, 0, 1, 2, 0, 0, 0, 0, 1, 2];
    let mut result: Vec<u32> = Vec::new();
    flatten(
        &CycleTree::Node((
            2,
            vec![
                CycleTree::Node((2, vec![CycleTree::Leaf(0), CycleTree::Leaf(0)])),
                CycleTree::Leaf(1),
                CycleTree::Leaf(2),
            ],
        )),
        &mut result,
    );
    assert_eq!(expected, result);
}

/// A fresh flattening is appended to whatever the vector already holds.
#[test]
fn flatten_appends_to_existing_contents() {
    let mut result: Vec<u32> = vec![9];
    flatten(&CycleTree::Leaf(7), &mut result);
    assert_eq!(vec![9, 7], result);
}

/// A zero-count node contributes nothing.
#[test]
fn zero_repeats_flatten_to_nothing() {
    let mut result: Vec<u32> = Vec::new();
    flatten(
        &CycleTree::Node((0, vec![CycleTree::Leaf(1)])),
        &mut result,
    );
    assert_eq!(Vec::<u32>::new(), result);
}
