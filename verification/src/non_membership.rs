//! Non-membership by set difference.
//!
//! The statement: a public value sits at some index of the tree behind
//! `new_root`, while the same index of the tree behind `old_root` held
//! a different value. Under collision resistance of the hashes this
//! shows the public value was not at that position of the old set,
//! without revealing what was.

use crate::merkle::SimplePath;
use crate::SynthesisError;
use vstd::prelude::*;

verus! {

/// The non-membership relation. Roots and the new leaf value are
/// public; the old value at the shared index and the two paths are
/// witnesses, absent until a prover assigns them.
pub struct NonMembershipSetDiff {
    pub old_root: Vec<u8>,
    pub new_root: Vec<u8>,
    pub leaf_new: u8,
    pub leaf_old_at_index: u8,
    pub path_new: Option<SimplePath>,
    pub path_old_same_index: Option<SimplePath>,
}

impl NonMembershipSetDiff {
    /// Whether every witness the relation reads is assigned.
    pub open spec fn witness_complete(self) -> bool {
        self.path_new is Some && self.path_old_same_index is Some
    }

    /// The predicate the circuit enforces: the new leaf is a member
    /// under `new_root`, the old value is a member at its path's index
    /// under `old_root`, and the two values differ. The two paths are
    /// expected to share an index, but, as in the constraint encoding,
    /// no clause here equates their index bits.
    pub open spec fn satisfied(self) -> bool
        recommends
            self.witness_complete(),
    {
        &&& self.path_new->Some_0.checks(self.new_root@, seq![self.leaf_new])
        &&& self.path_old_same_index->Some_0.checks(self.old_root@, seq![self.leaf_old_at_index])
        &&& self.leaf_new != self.leaf_old_at_index
    }

    /// Evaluates the relation: exactly `satisfied` once every witness
    /// is assigned, and an assignment-missing failure otherwise.
    pub fn check_constraints(&self) -> (r: Result<bool, SynthesisError>)
        ensures
            match r {
                Ok(b) => self.witness_complete() && b == self.satisfied(),
                Err(e) => !self.witness_complete() && e == SynthesisError::AssignmentMissing,
            },
    {
        let path_new = match &self.path_new {
            Some(p) => p,
            None => {
                return Err(SynthesisError::AssignmentMissing);
            },
        };
        let path_old = match &self.path_old_same_index {
            Some(p) => p,
            None => {
                return Err(SynthesisError::AssignmentMissing);
            },
        };
        let mut leaf_new_bytes: Vec<u8> = Vec::new();
        leaf_new_bytes.push(self.leaf_new);
        let mut leaf_old_bytes: Vec<u8> = Vec::new();
        leaf_old_bytes.push(self.leaf_old_at_index);
        proof {
            assert(leaf_new_bytes@ =~= seq![self.leaf_new]);
            assert(leaf_old_bytes@ =~= seq![self.leaf_old_at_index]);
        }
        let ok_new = path_new.verify(&self.new_root, &leaf_new_bytes);
        let ok_old = path_old.verify(&self.old_root, &leaf_old_bytes);
        let differ = self.leaf_new != self.leaf_old_at_index;
        Ok(ok_new && ok_old && differ)
    }

    /// Claiming the very value the old tree already holds can never
    /// satisfy the relation, whatever the roots and paths.
    pub proof fn lemma_equal_values_unsatisfiable(self)
        requires
            self.leaf_new == self.leaf_old_at_index,
        ensures
            !self.satisfied(),
    {
    }

    /// Soundness, up to hash collisions: when the two paths of an
    /// accepting witness share their index — the discipline the prover
    /// is relied on to follow, since no clause equates the index bits —
    /// that one index folds `leaf_new` to the new root while a
    /// different value folds to the old root.
    pub proof fn lemma_soundness_at_shared_index(self)
        requires
            self.witness_complete(),
            self.satisfied(),
            self.path_new->Some_0.index == self.path_old_same_index->Some_0.index,
        ensures
            self.leaf_old_at_index != self.leaf_new,
            self.path_new->Some_0.checks(self.new_root@, seq![self.leaf_new]),
            self.path_old_same_index->Some_0.checks(self.old_root@, seq![self.leaf_old_at_index]),
    {
    }

    /// Completeness: an honest witness — a membership path for the new
    /// value, a membership path for a different old value at its index
    /// — satisfies the relation.
    pub proof fn lemma_honest_witness_satisfies(self)
        requires
            self.witness_complete(),
            self.path_new->Some_0.checks(self.new_root@, seq![self.leaf_new]),
            self.path_old_same_index->Some_0.checks(self.old_root@, seq![self.leaf_old_at_index]),
            self.leaf_new != self.leaf_old_at_index,
        ensures
            self.satisfied(),
    {
    }
}

} // verus!
