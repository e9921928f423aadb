//! A Merkle tree of fixed height over byte-string leaves, with
//! authentication paths.
//!
//! The tree stores its leaves and recomputes digests on demand; the
//! authentication path for an index carries one sibling digest per
//! level, and the index bits, read least-significant first, choose on
//! which side the running digest sits at each level.

use crate::bytes::{bytes_eq, clone_bytes, views};
use crate::hash::{leaf_hash, leaf_hash_of, node_hash, node_hash_of};
use vstd::pervasive::VecAdditionalExecFns;
use vstd::prelude::*;

verus! {

/// 2 to the power `e`.
pub open spec fn pow2(e: nat) -> nat
    decreases e,
{
    if e == 0 {
        1
    } else {
        2 * pow2((e - 1) as nat)
    }
}

pub proof fn lemma_pow2_pos(e: nat)
    ensures
        pow2(e) >= 1,
    decreases e,
{
    if e > 0 {
        lemma_pow2_pos((e - 1) as nat);
    }
}

pub proof fn lemma_pow2_gt(e: nat)
    ensures
        pow2(e) > e,
    decreases e,
{
    if e > 0 {
        lemma_pow2_gt((e - 1) as nat);
    }
}

pub proof fn lemma_pow2_increases(a: nat, b: nat)
    requires
        a <= b,
    ensures
        pow2(a) <= pow2(b),
    decreases b,
{
    if a < b {
        lemma_pow2_increases(a, (b - 1) as nat);
    }
}

pub proof fn lemma_pow2_strictly_increases(a: nat, b: nat)
    requires
        a < b,
    ensures
        pow2(a) < pow2(b),
    decreases b,
{
    lemma_pow2_increases(a, (b - 1) as nat);
    lemma_pow2_pos((b - 1) as nat);
}

/// One step up the tree: each ordered pair of digests is hashed into
/// its parent.
pub open spec fn hash_level(nodes: Seq<Seq<u8>>) -> Seq<Seq<u8>> {
    Seq::new(nodes.len() / 2, |i: int| node_hash_of(nodes[2 * i], nodes[2 * i + 1]))
}

/// The root digest over a level of digests whose length is a power of
/// two.
pub open spec fn root_of_digests(nodes: Seq<Seq<u8>>) -> Seq<u8>
    recommends
        nodes.len() >= 1,
    decreases nodes.len(),
{
    if nodes.len() <= 1 {
        nodes[0]
    } else {
        root_of_digests(hash_level(nodes))
    }
}

/// The digests of the leaves.
pub open spec fn leaf_digests(leaves: Seq<Seq<u8>>) -> Seq<Seq<u8>> {
    leaves.map_values(|l: Seq<u8>| leaf_hash_of(l))
}

/// The root of the tree built over the given leaves.
pub open spec fn tree_root_of(leaves: Seq<Seq<u8>>) -> Seq<u8> {
    root_of_digests(leaf_digests(leaves))
}

/// Folding a digest up an authentication path: at each level the
/// running digest is hashed with the sibling, on the side the current
/// index bit selects, and the index is halved.
pub open spec fn path_root_of(digest: Seq<u8>, siblings: Seq<Seq<u8>>, index: nat) -> Seq<u8>
    decreases siblings.len(),
{
    if siblings.len() == 0 {
        digest
    } else {
        let up = if index % 2 == 0 {
            node_hash_of(digest, siblings[0])
        } else {
            node_hash_of(siblings[0], digest)
        };
        path_root_of(up, siblings.drop_first(), index / 2)
    }
}

/// The sibling digests that accompany `index` from a full bottom level
/// up to the root.
pub open spec fn siblings_of(nodes: Seq<Seq<u8>>, index: nat) -> Seq<Seq<u8>>
    recommends
        index < nodes.len(),
    decreases nodes.len(),
{
    if nodes.len() <= 1 {
        Seq::empty()
    } else {
        let sib = if index % 2 == 0 {
            nodes[index as int + 1]
        } else {
            nodes[index as int - 1]
        };
        seq![sib] + siblings_of(hash_level(nodes), index / 2)
    }
}

/// Folding the digest at `index` up its sibling path yields the root of
/// the level.
pub proof fn lemma_fold_to_root(nodes: Seq<Seq<u8>>, index: nat, h: nat)
    requires
        nodes.len() == pow2(h),
        index < nodes.len(),
    ensures
        siblings_of(nodes, index).len() == h,
        path_root_of(nodes[index as int], siblings_of(nodes, index), index) == root_of_digests(
            nodes,
        ),
    decreases h,
{
    if h == 0 {
        assert(siblings_of(nodes, index) =~= Seq::<Seq<u8>>::empty());
    } else {
        lemma_pow2_pos((h - 1) as nat);
        let next = hash_level(nodes);
        assert(next.len() == pow2((h - 1) as nat));
        let half = index / 2;
        let i = index as int;
        let sib = if index % 2 == 0 {
            nodes[i + 1]
        } else {
            nodes[i - 1]
        };
        let up = if index % 2 == 0 {
            node_hash_of(nodes[i], sib)
        } else {
            node_hash_of(sib, nodes[i])
        };
        assert(next[half as int] == node_hash_of(nodes[2 * (half as int)], nodes[2 * (half as int)
            + 1]));
        assert(next[half as int] == up);
        lemma_fold_to_root(next, half, (h - 1) as nat);
        let rest = siblings_of(next, half);
        assert((seq![sib] + rest).drop_first() =~= rest);
        assert((seq![sib] + rest)[0] == sib);
        assert(siblings_of(nodes, index) == seq![sib] + rest);
    }
}

/// The shape of a tree: its height. A tree of height `h` holds exactly
/// `2^h` leaves.
#[derive(Clone, Copy, PartialEq, Eq, Structural, Debug)]
pub struct MerkleConfig {
    pub height: usize,
}

/// An authentication path: one sibling digest per level, from the leaf
/// level upward, together with the leaf index whose bits (least
/// significant first) say on which side the running digest sits.
#[derive(Clone, Debug)]
pub struct SimplePath {
    pub siblings: Vec<Vec<u8>>,
    pub index: usize,
}

impl SimplePath {
    /// Whether folding the digest of `leaf` up this path reproduces
    /// `root`.
    pub open spec fn checks(self, root: Seq<u8>, leaf: Seq<u8>) -> bool {
        path_root_of(leaf_hash_of(leaf), views(self.siblings@), self.index as nat) == root
    }

    /// Recomputes the root from a claimed leaf and compares; true
    /// exactly when the recomputation matches.
    pub fn verify(&self, root: &Vec<u8>, leaf: &Vec<u8>) -> (r: bool)
        ensures
            r == self.checks(root@, leaf@),
    {
        let full = Ghost(views(self.siblings@));
        let mut digest = leaf_hash(leaf);
        let mut idx: usize = self.index;
        let mut m: usize = 0;
        proof {
            assert(full@.skip(0) =~= full@);
        }
        while m < self.siblings.len()
            invariant
                m <= self.siblings@.len(),
                full@ == views(self.siblings@),
                path_root_of(digest@, full@.skip(m as int), idx as nat) == path_root_of(
                    leaf_hash_of(leaf@),
                    full@,
                    self.index as nat,
                ),
            decreases self.siblings@.len() - m,
        {
            proof {
                assert(full@.skip(m as int)[0] == full@[m as int]);
                assert(full@.skip(m as int).drop_first() =~= full@.skip(m as int + 1));
            }
            if idx % 2 == 0 {
                digest = node_hash(&digest, &self.siblings[m]);
            } else {
                digest = node_hash(&self.siblings[m], &digest);
            }
            idx = idx / 2;
            m = m + 1;
        }
        proof {
            assert(full@.skip(m as int) =~= Seq::<Seq<u8>>::empty());
        }
        bytes_eq(&digest, root)
    }
}

/// `2^h`, when it fits a `usize`.
fn checked_pow2(h: usize) -> (r: Option<usize>)
    ensures
        match r {
            Some(c) => c == pow2(h as nat),
            None => pow2(h as nat) > usize::MAX,
        },
{
    let mut c: usize = 1;
    let mut i: usize = 0;
    while i < h
        invariant
            i <= h,
            c == pow2(i as nat),
        decreases h - i,
    {
        if c > usize::MAX / 2 {
            proof {
                assert(pow2(i as nat + 1) == 2 * pow2(i as nat));
                lemma_pow2_increases(i as nat + 1, h as nat);
            }
            return None;
        }
        c = c * 2;
        i = i + 1;
    }
    Some(c)
}

/// A Merkle tree of fixed height: `2^height` byte-string leaves, hashed
/// upward on demand.
#[derive(Clone, Debug)]
pub struct SimpleMerkleTree {
    pub config: MerkleConfig,
    pub leaves: Vec<Vec<u8>>,
}

impl SimpleMerkleTree {
    /// The leaf count matches the configured height.
    pub open spec fn wf(self) -> bool {
        self.leaves@.len() == pow2(self.config.height as nat)
    }

    pub open spec fn leaves_view(self) -> Seq<Seq<u8>> {
        views(self.leaves@)
    }

    /// The root the stored leaves hash to.
    pub open spec fn root_spec(self) -> Seq<u8> {
        tree_root_of(self.leaves_view())
    }

    /// Builds a tree over the given leaves; refused unless their number
    /// is exactly `2^height`.
    pub fn new(config: MerkleConfig, leaves: Vec<Vec<u8>>) -> (r: Option<SimpleMerkleTree>)
        ensures
            match r {
                Some(t) => t.config == config && t.leaves == leaves && t.wf(),
                None => leaves@.len() != pow2(config.height as nat),
            },
    {
        let n = leaves.len();
        match checked_pow2(config.height) {
            Some(c) => {
                if n == c {
                    Some(SimpleMerkleTree { config, leaves })
                } else {
                    None
                }
            },
            None => None,
        }
    }

    fn leaf_level(&self) -> (r: Vec<Vec<u8>>)
        ensures
            views(r@) == leaf_digests(self.leaves_view()),
    {
        let mut level: Vec<Vec<u8>> = Vec::new();
        let mut i: usize = 0;
        while i < self.leaves.len()
            invariant
                i <= self.leaves@.len(),
                level@.len() == i,
                forall|j: int| 0 <= j < i ==> level@[j]@ == leaf_hash_of(self.leaves@[j]@),
            decreases self.leaves@.len() - i,
        {
            let d = leaf_hash(&self.leaves[i]);
            level.push(d);
            i = i + 1;
        }
        proof {
            assert(views(level@) =~= leaf_digests(self.leaves_view()));
        }
        level
    }

    /// Recomputes and returns the root.
    pub fn root(&self) -> (r: Vec<u8>)
        requires
            self.wf(),
        ensures
            r@ == self.root_spec(),
    {
        let mut level = self.leaf_level();
        let ghost mut k: nat = self.config.height as nat;
        while level.len() > 1
            invariant
                views(level@).len() == pow2(k),
                root_of_digests(views(level@)) == self.root_spec(),
            decreases level@.len(),
        {
            proof {
                if k == 0 {
                    assert(false);
                }
                assert(pow2(k) == 2 * pow2((k - 1) as nat));
            }
            let next = hash_up(&level);
            proof {
                k = (k - 1) as nat;
            }
            level = next;
        }
        proof {
            lemma_pow2_pos(k);
        }
        let r = level.pop().unwrap();
        r
    }

    /// Replaces the leaf at `index`.
    pub fn update(&mut self, index: usize, leaf: Vec<u8>)
        requires
            old(self).wf(),
            index < old(self).leaves@.len(),
        ensures
            final(self).config == old(self).config,
            final(self).leaves@ == old(self).leaves@.update(index as int, leaf),
            final(self).wf(),
    {
        self.leaves.set(index, leaf);
    }

    /// Produces the authentication path for the leaf at `index`, or
    /// nothing when the index is out of range. The path it hands out
    /// folds that leaf's digest back to this tree's root.
    pub fn generate_proof(&self, index: usize) -> (r: Option<SimplePath>)
        requires
            self.wf(),
        ensures
            match r {
                Some(p) => index < self.leaves@.len() && p.index == index && p.siblings@.len()
                    == self.config.height && views(p.siblings@) == siblings_of(
                    leaf_digests(self.leaves_view()),
                    index as nat,
                ) && p.checks(self.root_spec(), self.leaves@[index as int]@),
                None => index >= self.leaves@.len(),
            },
    {
        if index >= self.leaves.len() {
            return None;
        }
        let ghost full = leaf_digests(self.leaves_view());
        let mut level = self.leaf_level();
        let mut sibs: Vec<Vec<u8>> = Vec::new();
        let mut idx: usize = index;
        let ghost mut k: nat = self.config.height as nat;
        proof {
            assert(views(level@).len() == level@.len());
            assert(views(level@).len() == full.len());
            assert(Seq::<Seq<u8>>::empty() + siblings_of(full, index as nat) =~= siblings_of(
                full,
                index as nat,
            ));
        }
        while level.len() > 1
            invariant
                views(level@).len() == pow2(k),
                idx < level@.len(),
                sibs@.len() + k == self.config.height,
                views(sibs@) + siblings_of(views(level@), idx as nat) =~= siblings_of(
                    full,
                    index as nat,
                ),
            decreases level@.len(),
        {
            proof {
                if k == 0 {
                    assert(false);
                }
                assert(pow2(k) == 2 * pow2((k - 1) as nat));
            }
            let sib = if idx % 2 == 0 {
                clone_bytes(&level[idx + 1])
            } else {
                clone_bytes(&level[idx - 1])
            };
            let ghost old_sibs = sibs@;
            let ghost old_level = views(level@);
            let ghost old_idx = idx as nat;
            sibs.push(sib);
            let next = hash_up(&level);
            idx = idx / 2;
            proof {
                k = (k - 1) as nat;
                let sib_spec = if old_idx % 2 == 0 {
                    old_level[old_idx as int + 1]
                } else {
                    old_level[old_idx as int - 1]
                };
                assert(siblings_of(old_level, old_idx) == seq![sib_spec] + siblings_of(
                    hash_level(old_level),
                    old_idx / 2,
                ));
                assert(views(sibs@) + siblings_of(views(next@), idx as nat) =~= views(old_sibs)
                    + siblings_of(old_level, old_idx));
            }
            level = next;
        }
        proof {
            if k != 0 {
                lemma_pow2_strictly_increases(0, k);
                assert(false);
            }
            assert(siblings_of(views(level@), idx as nat) =~= Seq::<Seq<u8>>::empty());
            assert(views(sibs@) =~= siblings_of(full, index as nat));
            lemma_fold_to_root(full, index as nat, self.config.height as nat);
        }
        Some(SimplePath { siblings: sibs, index })
    }
}

fn hash_up(level: &Vec<Vec<u8>>) -> (r: Vec<Vec<u8>>)
    requires
        level@.len() % 2 == 0,
    ensures
        views(r@) == hash_level(views(level@)),
{
    let mut next: Vec<Vec<u8>> = Vec::new();
    let mut j: usize = 0;
    while j < level.len()
        invariant
            j <= level@.len(),
            j % 2 == 0,
            level@.len() % 2 == 0,
            next@.len() == j / 2,
            forall|m: int| 0 <= m < j / 2 ==> next@[m]@ == node_hash_of(
                level@[2 * m]@,
                level@[2 * m + 1]@,
            ),
        decreases level@.len() - j,
    {
        let d = node_hash(&level[j], &level[j + 1]);
        next.push(d);
        j = j + 2;
    }
    proof {
        assert(views(next@) =~= hash_level(views(level@)));
    }
    next
}

} // verus!
