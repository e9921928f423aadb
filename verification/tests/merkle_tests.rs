use rollup::merkle::{MerkleConfig, SimpleMerkleTree};

fn byte_leaves(values: &[u8]) -> Vec<Vec<u8>> {
    let mut out = Vec::new();
    for v in values {
        out.push(vec![*v]);
    }
    out
}

#[test]
fn test_merkle_tree() {
    let tree = SimpleMerkleTree::new(
        MerkleConfig { height: 3 },
        byte_leaves(&[1u8, 2u8, 3u8, 10u8, 9u8, 17u8, 70u8, 45u8]),
    )
    .unwrap();

    let proof = tree.generate_proof(4).unwrap();
    let root = tree.root();
    let result = proof.verify(&root, &vec![9u8]);
    assert!(result);
}

#[test]
fn merkle_proof_rejects_wrong_leaf() {
    let tree = SimpleMerkleTree::new(
        MerkleConfig { height: 3 },
        byte_leaves(&[1u8, 2u8, 3u8, 10u8, 9u8, 17u8, 70u8, 45u8]),
    )
    .unwrap();
    let proof = tree.generate_proof(4).unwrap();
    let root = tree.root();
    assert!(!proof.verify(&root, &vec![8u8]));
}

#[test]
fn merkle_root_tracks_updates() {
    let mut tree = SimpleMerkleTree::new(
        MerkleConfig { height: 2 },
        byte_leaves(&[1u8, 2u8, 3u8, 4u8]),
    )
    .unwrap();
    let before = tree.root();
    tree.update(2, vec![9u8]);
    let after = tree.root();
    assert_ne!(before, after);

    let reference = SimpleMerkleTree::new(
        MerkleConfig { height: 2 },
        byte_leaves(&[1u8, 2u8, 9u8, 4u8]),
    )
    .unwrap();
    assert_eq!(after, reference.root());

    let proof = tree.generate_proof(2).unwrap();
    assert!(proof.verify(&after, &vec![9u8]));
    assert!(!proof.verify(&before, &vec![9u8]));
}

#[test]
fn merkle_tree_rejects_wrong_leaf_count() {
    assert!(SimpleMerkleTree::new(MerkleConfig { height: 3 }, byte_leaves(&[1u8, 2u8])).is_none());
    assert!(SimpleMerkleTree::new(MerkleConfig { height: 0 }, byte_leaves(&[7u8])).is_some());
}

#[test]
fn merkle_proof_out_of_range_index() {
    let tree = SimpleMerkleTree::new(MerkleConfig { height: 1 }, byte_leaves(&[1u8, 2u8])).unwrap();
    assert!(tree.generate_proof(2).is_none());
    assert!(tree.generate_proof(1).is_some());
}
