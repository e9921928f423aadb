use rollup::merkle::{MerkleConfig, SimpleMerkleTree};
use rollup::non_membership::NonMembershipSetDiff;
use rollup::SynthesisError;

fn byte_leaves(values: &[u8]) -> Vec<Vec<u8>> {
    let mut out = Vec::new();
    for v in values {
        out.push(vec![*v]);
    }
    out
}

#[test]
fn non_membership_set_diff_satisfied() {
    // Old tree: index 4 holds 9
    let old_leaves = [1u8, 2u8, 3u8, 10u8, 9u8, 17u8, 70u8, 45u8];
    let old_tree =
        SimpleMerkleTree::new(MerkleConfig { height: 3 }, byte_leaves(&old_leaves)).unwrap();

    // New tree: index 4 is changed to 11
    let mut new_leaves = old_leaves;
    new_leaves[4] = 11u8;
    let new_tree =
        SimpleMerkleTree::new(MerkleConfig { height: 3 }, byte_leaves(&new_leaves)).unwrap();

    let idx = 4;
    let path_old = old_tree.generate_proof(idx).unwrap();
    let path_new = new_tree.generate_proof(idx).unwrap();

    let circuit = NonMembershipSetDiff {
        old_root: old_tree.root(),
        new_root: new_tree.root(),
        leaf_new: new_leaves[idx],
        leaf_old_at_index: old_leaves[idx],
        path_new: Some(path_new),
        path_old_same_index: Some(path_old),
    };
    assert!(circuit.check_constraints().unwrap());
}

#[test]
fn non_membership_set_diff_fails_if_values_equal() {
    let leaves = [1u8, 2u8, 3u8, 10u8, 9u8, 17u8, 70u8, 45u8];
    let old_tree = SimpleMerkleTree::new(MerkleConfig { height: 3 }, byte_leaves(&leaves)).unwrap();
    let new_tree = SimpleMerkleTree::new(MerkleConfig { height: 3 }, byte_leaves(&leaves)).unwrap();

    let idx = 4; // same value in both: 9
    let path_old = old_tree.generate_proof(idx).unwrap();
    let path_new = new_tree.generate_proof(idx).unwrap();

    let circuit = NonMembershipSetDiff {
        old_root: old_tree.root(),
        new_root: new_tree.root(),
        leaf_new: leaves[idx],
        leaf_old_at_index: leaves[idx], // same -> should fail
        path_new: Some(path_new),
        path_old_same_index: Some(path_old),
    };
    assert!(!circuit.check_constraints().unwrap()); // should fail because leaves are equal
}

#[test]
fn non_membership_missing_witness_is_assignment_missing() {
    let leaves = [1u8, 2u8, 3u8, 10u8, 9u8, 17u8, 70u8, 45u8];
    let tree = SimpleMerkleTree::new(MerkleConfig { height: 3 }, byte_leaves(&leaves)).unwrap();
    let path = tree.generate_proof(4).unwrap();

    let circuit = NonMembershipSetDiff {
        old_root: tree.root(),
        new_root: tree.root(),
        leaf_new: 11u8,
        leaf_old_at_index: 9u8,
        path_new: None,
        path_old_same_index: Some(path),
    };
    assert_eq!(circuit.check_constraints(), Err(SynthesisError::AssignmentMissing));
}

#[test]
fn non_membership_rejects_wrong_old_value() {
    // The claimed old value must actually sit at the index of the old
    // tree: a fabricated witness value fails the old-root membership.
    let old_leaves = [1u8, 2u8, 3u8, 10u8, 9u8, 17u8, 70u8, 45u8];
    let old_tree =
        SimpleMerkleTree::new(MerkleConfig { height: 3 }, byte_leaves(&old_leaves)).unwrap();
    let mut new_leaves = old_leaves;
    new_leaves[4] = 11u8;
    let new_tree =
        SimpleMerkleTree::new(MerkleConfig { height: 3 }, byte_leaves(&new_leaves)).unwrap();

    let idx = 4;
    let circuit = NonMembershipSetDiff {
        old_root: old_tree.root(),
        new_root: new_tree.root(),
        leaf_new: new_leaves[idx],
        leaf_old_at_index: 42u8, // not what the old tree holds at index 4
        path_new: Some(new_tree.generate_proof(idx).unwrap()),
        path_old_same_index: Some(old_tree.generate_proof(idx).unwrap()),
    };
    assert!(!circuit.check_constraints().unwrap());
}
