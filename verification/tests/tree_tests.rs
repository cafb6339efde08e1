use vm_core::config::MemoryDimensions;
use vm_core::field::Felt;
use vm_core::memory::Memory;
use vm_core::tree::{Hasher, LinearHasher, MemoryNode, CHUNK};

fn dims() -> MemoryDimensions {
    // two address spaces starting at 1, eight chunks each
    MemoryDimensions { as_height: 1, address_height: 3, as_offset: 1 }
}

fn hasher() -> LinearHasher {
    LinearHasher::new(Felt::from_u32(3), Felt::from_u32(5))
}

fn zero_chunk() -> Vec<Felt> {
    vec![Felt::zero(); CHUNK]
}

#[test]
fn test_empty_memory_tree_is_uniform() {
    let hasher = hasher();
    let image = Memory::new().into_image();
    let tree = MemoryNode::tree_from_memory(dims(), &image, &hasher);
    let zero_leaf = hasher.hash(&zero_chunk());
    let uniform = MemoryNode::construct_uniform(dims().overall_height(), &zero_leaf, &hasher);
    assert_eq!(tree, uniform);
}

#[test]
fn test_untouched_subtree_shares_uniform_hash() {
    let hasher = hasher();
    let mut memory = Memory::new();
    // two disjoint writes, both inside address space 1 (the left half)
    memory.write(1, 0, &vec![Felt::from_u32(7)]);
    memory.write(1, 40, &vec![Felt::from_u32(9)]);
    let image = memory.into_image();
    let tree = MemoryNode::tree_from_memory(dims(), &image, &hasher);

    let zero_leaf = hasher.hash(&zero_chunk());
    let uniform_half = MemoryNode::construct_uniform(dims().overall_height() - 1, &zero_leaf, &hasher);
    match &tree {
        MemoryNode::NonLeaf { left, right, .. } => {
            // address space 2 was never touched: its whole half carries the
            // uniform tree's digest
            assert_eq!(right.hash(), uniform_half.hash());
            // the touched half differs from the uniform tree
            assert_ne!(left.hash(), uniform_half.hash());
        }
        MemoryNode::Leaf { .. } => panic!("a tree of height > 0 cannot be a leaf"),
    }
}

#[test]
fn test_tree_changes_with_contents() {
    let hasher = hasher();
    let mut memory_a = Memory::new();
    memory_a.write(1, 0, &vec![Felt::from_u32(1)]);
    let tree_a = MemoryNode::tree_from_memory(dims(), &memory_a.into_image(), &hasher);

    let mut memory_b = Memory::new();
    memory_b.write(1, 0, &vec![Felt::from_u32(2)]);
    let tree_b = MemoryNode::tree_from_memory(dims(), &memory_b.into_image(), &hasher);

    assert_ne!(tree_a.hash(), tree_b.hash());
}

#[test]
fn test_tree_deterministic_for_same_memory() {
    let hasher = hasher();
    let mut memory = Memory::new();
    memory.write(2, 8, &vec![Felt::from_u32(3), Felt::from_u32(4)]);
    let image = memory.into_image();
    let first = MemoryNode::tree_from_memory(dims(), &image, &hasher);
    let second = MemoryNode::tree_from_memory(dims(), &image, &hasher);
    assert_eq!(first, second);
}

#[test]
fn test_node_constructors_and_hash() {
    let hasher = hasher();
    let leaf_digest = hasher.hash(&zero_chunk());
    let leaf = MemoryNode::new_leaf(leaf_digest.clone());
    assert_eq!(leaf.hash(), leaf_digest);
    let inner = MemoryNode::new_nonleaf(
        std::sync::Arc::new(MemoryNode::new_leaf(leaf_digest.clone())),
        std::sync::Arc::new(MemoryNode::new_leaf(leaf_digest.clone())),
        &hasher,
    );
    assert_eq!(inner.hash(), hasher.compress(&leaf_digest, &leaf_digest));
}

#[test]
fn test_label_to_index_layout() {
    let d = dims();
    // (address space, chunk) labels are numbered space-major
    assert_eq!(d.label_to_index((1, 0)), 0);
    assert_eq!(d.label_to_index((1, 7)), 7);
    assert_eq!(d.label_to_index((2, 0)), 8);
    assert_eq!(d.label_to_index((2, 5)), 13);
}
