//! The orders that snapshot lists are sorted in.
use vstd::prelude::*;

use crate::model::{
    BranchKind, BranchSummary, ConflictSummary, OperationHead, OperationHeadRole, PathEntry,
    RemoteSummary, SubmoduleSummary, TagSummary, WorktreeSummary,
};
use crate::sort::KeyOrder;
use crate::text::{lemma_text_le_antisym, lemma_text_le_total, lemma_text_le_trans, str_le, text_le};

verus! {

/// Ordered by text.
impl KeyOrder for String {
    open spec fn key_le(&self, other: &Self) -> bool {
        text_le((*self)@, (*other)@)
    }

    fn sorts_before(&self, other: &Self) -> (r: bool) {
        str_le(self.as_str(), other.as_str())
    }

    proof fn lemma_key_total(a: &Self, b: &Self) {
        lemma_text_le_total((*a)@, (*b)@);
    }

    proof fn lemma_key_trans(a: &Self, b: &Self, c: &Self) {
        lemma_text_le_trans((*a)@, (*b)@, (*c)@);
    }
}

/// Ordered by `name`.
impl KeyOrder for RemoteSummary {
    open spec fn key_le(&self, other: &Self) -> bool {
        text_le((self.name)@, (other.name)@)
    }

    fn sorts_before(&self, other: &Self) -> (r: bool) {
        str_le(self.name.as_str(), other.name.as_str())
    }

    proof fn lemma_key_total(a: &Self, b: &Self) {
        lemma_text_le_total((a.name)@, (b.name)@);
    }

    proof fn lemma_key_trans(a: &Self, b: &Self, c: &Self) {
        lemma_text_le_trans((a.name)@, (b.name)@, (c.name)@);
    }
}

/// Ordered by `name`.
impl KeyOrder for TagSummary {
    open spec fn key_le(&self, other: &Self) -> bool {
        text_le((self.name)@, (other.name)@)
    }

    fn sorts_before(&self, other: &Self) -> (r: bool) {
        str_le(self.name.as_str(), other.name.as_str())
    }

    proof fn lemma_key_total(a: &Self, b: &Self) {
        lemma_text_le_total((a.name)@, (b.name)@);
    }

    proof fn lemma_key_trans(a: &Self, b: &Self, c: &Self) {
        lemma_text_le_trans((a.name)@, (b.name)@, (c.name)@);
    }
}

/// Ordered by `name`.
impl KeyOrder for WorktreeSummary {
    open spec fn key_le(&self, other: &Self) -> bool {
        text_le((self.name)@, (other.name)@)
    }

    fn sorts_before(&self, other: &Self) -> (r: bool) {
        str_le(self.name.as_str(), other.name.as_str())
    }

    proof fn lemma_key_total(a: &Self, b: &Self) {
        lemma_text_le_total((a.name)@, (b.name)@);
    }

    proof fn lemma_key_trans(a: &Self, b: &Self, c: &Self) {
        lemma_text_le_trans((a.name)@, (b.name)@, (c.name)@);
    }
}

/// Ordered by `name`.
impl KeyOrder for SubmoduleSummary {
    open spec fn key_le(&self, other: &Self) -> bool {
        text_le((self.name)@, (other.name)@)
    }

    fn sorts_before(&self, other: &Self) -> (r: bool) {
        str_le(self.name.as_str(), other.name.as_str())
    }

    proof fn lemma_key_total(a: &Self, b: &Self) {
        lemma_text_le_total((a.name)@, (b.name)@);
    }

    proof fn lemma_key_trans(a: &Self, b: &Self, c: &Self) {
        lemma_text_le_trans((a.name)@, (b.name)@, (c.name)@);
    }
}

/// Ordered by `path`.
impl KeyOrder for ConflictSummary {
    open spec fn key_le(&self, other: &Self) -> bool {
        text_le((self.path)@, (other.path)@)
    }

    fn sorts_before(&self, other: &Self) -> (r: bool) {
        str_le(self.path.as_str(), other.path.as_str())
    }

    proof fn lemma_key_total(a: &Self, b: &Self) {
        lemma_text_le_total((a.path)@, (b.path)@);
    }

    proof fn lemma_key_trans(a: &Self, b: &Self, c: &Self) {
        lemma_text_le_trans((a.path)@, (b.path)@, (c.path)@);
    }
}

/// Ordered by `path`.
impl KeyOrder for PathEntry {
    open spec fn key_le(&self, other: &Self) -> bool {
        text_le((self.path)@, (other.path)@)
    }

    fn sorts_before(&self, other: &Self) -> (r: bool) {
        str_le(self.path.as_str(), other.path.as_str())
    }

    proof fn lemma_key_total(a: &Self, b: &Self) {
        lemma_text_le_total((a.path)@, (b.path)@);
    }

    proof fn lemma_key_trans(a: &Self, b: &Self, c: &Self) {
        lemma_text_le_trans((a.path)@, (b.path)@, (c.path)@);
    }
}

/// The rank of a branch kind: local branches first.
pub open spec fn kind_rank(k: BranchKind) -> int {
    match k {
        BranchKind::Local => 0,
        BranchKind::Remote => 1,
    }
}

/// The rank of an operation head role, in declaration order.
pub open spec fn role_rank(r: OperationHeadRole) -> int {
    match r {
        OperationHeadRole::Merge => 0,
        OperationHeadRole::Rebase => 1,
        OperationHeadRole::CherryPick => 2,
        OperationHeadRole::Revert => 3,
    }
}

fn kind_le(a: BranchKind, b: BranchKind) -> (r: bool)
    ensures
        r == (kind_rank(a) <= kind_rank(b)),
{
    match (a, b) {
        (BranchKind::Remote, BranchKind::Local) => false,
        _ => true,
    }
}

fn role_index(r: OperationHeadRole) -> (i: u8)
    ensures
        i as int == role_rank(r),
{
    match r {
        OperationHeadRole::Merge => 0,
        OperationHeadRole::Rebase => 1,
        OperationHeadRole::CherryPick => 2,
        OperationHeadRole::Revert => 3,
    }
}

/// Ordered by name, then local before remote.
impl KeyOrder for BranchSummary {
    open spec fn key_le(&self, other: &Self) -> bool {
        if self.name@ == other.name@ {
            kind_rank(self.kind) <= kind_rank(other.kind)
        } else {
            text_le(self.name@, other.name@)
        }
    }

    fn sorts_before(&self, other: &Self) -> (r: bool) {
        if self.name == other.name {
            kind_le(self.kind, other.kind)
        } else {
            str_le(self.name.as_str(), other.name.as_str())
        }
    }

    proof fn lemma_key_total(a: &Self, b: &Self) {
        lemma_text_le_total(a.name@, b.name@);
    }

    proof fn lemma_key_trans(a: &Self, b: &Self, c: &Self) {
        if a.name@ != b.name@ && b.name@ != c.name@ {
            lemma_text_le_trans(a.name@, b.name@, c.name@);
            if a.name@ == c.name@ {
                lemma_text_le_antisym(a.name@, b.name@);
            }
        }
    }
}

/// Ordered by role, then by object id.
impl KeyOrder for OperationHead {
    open spec fn key_le(&self, other: &Self) -> bool {
        if role_rank(self.role) == role_rank(other.role) {
            text_le(self.oid@, other.oid@)
        } else {
            role_rank(self.role) < role_rank(other.role)
        }
    }

    fn sorts_before(&self, other: &Self) -> (r: bool) {
        let a = role_index(self.role);
        let b = role_index(other.role);
        if a == b {
            str_le(self.oid.as_str(), other.oid.as_str())
        } else {
            a < b
        }
    }

    proof fn lemma_key_total(a: &Self, b: &Self) {
        lemma_text_le_total(a.oid@, b.oid@);
    }

    proof fn lemma_key_trans(a: &Self, b: &Self, c: &Self) {
        if role_rank(a.role) == role_rank(b.role) && role_rank(b.role) == role_rank(c.role) {
            lemma_text_le_trans(a.oid@, b.oid@, c.oid@);
        }
    }
}

} // verus!
