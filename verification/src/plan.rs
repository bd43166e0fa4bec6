//! Refresh plans: which parts of a snapshot a change makes stale.
use vstd::prelude::*;

verus! {

/// A section of a repository snapshot that can be re-read on its own.
#[derive(Debug, Clone, Copy, PartialEq, Eq, Structural, PartialOrd, Ord, Hash)]
pub enum RefreshDomain {
    Identity,
    Head,
    Upstream,
    Paths,
    Operation,
    Remotes,
    Branches,
    Tags,
    Stashes,
    Worktrees,
    Submodules,
}

/// A set of refresh domains, one flag per domain.
#[derive(Debug, Clone, Copy, PartialEq, Eq, Structural, Hash)]
pub struct DomainSet {
    pub identity: bool,
    pub head: bool,
    pub upstream: bool,
    pub paths: bool,
    pub operation: bool,
    pub remotes: bool,
    pub branches: bool,
    pub tags: bool,
    pub stashes: bool,
    pub worktrees: bool,
    pub submodules: bool,
}

impl DomainSet {
    /// Whether `d` is in the set.
    pub open spec fn has(self, d: RefreshDomain) -> bool {
        match d {
            RefreshDomain::Identity => self.identity,
            RefreshDomain::Head => self.head,
            RefreshDomain::Upstream => self.upstream,
            RefreshDomain::Paths => self.paths,
            RefreshDomain::Operation => self.operation,
            RefreshDomain::Remotes => self.remotes,
            RefreshDomain::Branches => self.branches,
            RefreshDomain::Tags => self.tags,
            RefreshDomain::Stashes => self.stashes,
            RefreshDomain::Worktrees => self.worktrees,
            RefreshDomain::Submodules => self.submodules,
        }
    }

    /// The domains in the set.
    pub open spec fn members(self) -> Set<RefreshDomain> {
        Set::new(|d: RefreshDomain| self.has(d))
    }

    pub open spec fn spec_is_empty(self) -> bool {
        !self.identity && !self.head && !self.upstream && !self.paths && !self.operation
            && !self.remotes && !self.branches && !self.tags && !self.stashes && !self.worktrees
            && !self.submodules
    }

    pub open spec fn spec_union(self, other: DomainSet) -> DomainSet {
        DomainSet {
            identity: self.identity || other.identity,
            head: self.head || other.head,
            upstream: self.upstream || other.upstream,
            paths: self.paths || other.paths,
            operation: self.operation || other.operation,
            remotes: self.remotes || other.remotes,
            branches: self.branches || other.branches,
            tags: self.tags || other.tags,
            stashes: self.stashes || other.stashes,
            worktrees: self.worktrees || other.worktrees,
            submodules: self.submodules || other.submodules,
        }
    }

    pub open spec fn spec_insert(self, d: RefreshDomain) -> DomainSet {
        match d {
            RefreshDomain::Identity => DomainSet { identity: true, ..self },
            RefreshDomain::Head => DomainSet { head: true, ..self },
            RefreshDomain::Upstream => DomainSet { upstream: true, ..self },
            RefreshDomain::Paths => DomainSet { paths: true, ..self },
            RefreshDomain::Operation => DomainSet { operation: true, ..self },
            RefreshDomain::Remotes => DomainSet { remotes: true, ..self },
            RefreshDomain::Branches => DomainSet { branches: true, ..self },
            RefreshDomain::Tags => DomainSet { tags: true, ..self },
            RefreshDomain::Stashes => DomainSet { stashes: true, ..self },
            RefreshDomain::Worktrees => DomainSet { worktrees: true, ..self },
            RefreshDomain::Submodules => DomainSet { submodules: true, ..self },
        }
    }

    pub open spec fn spec_empty() -> DomainSet {
        DomainSet {
            identity: false,
            head: false,
            upstream: false,
            paths: false,
            operation: false,
            remotes: false,
            branches: false,
            tags: false,
            stashes: false,
            worktrees: false,
            submodules: false,
        }
    }

    /// The set of the domains listed in `s`.
    pub open spec fn of_seq(s: Seq<RefreshDomain>) -> DomainSet
        decreases s.len(),
    {
        if s.len() == 0 {
            DomainSet::spec_empty()
        } else {
            DomainSet::of_seq(s.drop_last()).spec_insert(s.last())
        }
    }

    /// The empty set.
    pub fn empty() -> (r: DomainSet)
        ensures
            r == DomainSet::spec_empty(),
            r.members() == Set::<RefreshDomain>::empty(),
    {
        let r = DomainSet {
            identity: false,
            head: false,
            upstream: false,
            paths: false,
            operation: false,
            remotes: false,
            branches: false,
            tags: false,
            stashes: false,
            worktrees: false,
            submodules: false,
        };
        assert(r.members() =~= Set::<RefreshDomain>::empty());
        r
    }

    /// Whether `d` is in the set.
    pub fn contains(&self, d: &RefreshDomain) -> (r: bool)
        ensures
            r == self.has(*d),
            r == self.members().contains(*d),
    {
        match d {
            RefreshDomain::Identity => self.identity,
            RefreshDomain::Head => self.head,
            RefreshDomain::Upstream => self.upstream,
            RefreshDomain::Paths => self.paths,
            RefreshDomain::Operation => self.operation,
            RefreshDomain::Remotes => self.remotes,
            RefreshDomain::Branches => self.branches,
            RefreshDomain::Tags => self.tags,
            RefreshDomain::Stashes => self.stashes,
            RefreshDomain::Worktrees => self.worktrees,
            RefreshDomain::Submodules => self.submodules,
        }
    }

    /// Whether the set has no member.
    pub fn is_empty(&self) -> (r: bool)
        ensures
            r == self.spec_is_empty(),
            r == (self.members() == Set::<RefreshDomain>::empty()),
    {
        proof {
            if !self.spec_is_empty() {
                let d = if self.identity {
                    RefreshDomain::Identity
                } else if self.head {
                    RefreshDomain::Head
                } else if self.upstream {
                    RefreshDomain::Upstream
                } else if self.paths {
                    RefreshDomain::Paths
                } else if self.operation {
                    RefreshDomain::Operation
                } else if self.remotes {
                    RefreshDomain::Remotes
                } else if self.branches {
                    RefreshDomain::Branches
                } else if self.tags {
                    RefreshDomain::Tags
                } else if self.stashes {
                    RefreshDomain::Stashes
                } else if self.worktrees {
                    RefreshDomain::Worktrees
                } else {
                    RefreshDomain::Submodules
                };
                assert(self.members().contains(d));
                assert(!Set::<RefreshDomain>::empty().contains(d));
            } else {
                assert(self.members() =~= Set::<RefreshDomain>::empty());
            }
        }
        !self.identity && !self.head && !self.upstream && !self.paths && !self.operation
            && !self.remotes && !self.branches && !self.tags && !self.stashes && !self.worktrees
            && !self.submodules
    }

    /// The set with `d` added.
    pub fn insert(&mut self, d: RefreshDomain)
        ensures
            *final(self) == old(self).spec_insert(d),
            final(self).members() == old(self).members().insert(d),
    {
        match d {
            RefreshDomain::Identity => self.identity = true,
            RefreshDomain::Head => self.head = true,
            RefreshDomain::Upstream => self.upstream = true,
            RefreshDomain::Paths => self.paths = true,
            RefreshDomain::Operation => self.operation = true,
            RefreshDomain::Remotes => self.remotes = true,
            RefreshDomain::Branches => self.branches = true,
            RefreshDomain::Tags => self.tags = true,
            RefreshDomain::Stashes => self.stashes = true,
            RefreshDomain::Worktrees => self.worktrees = true,
            RefreshDomain::Submodules => self.submodules = true,
        }
        proof {
            lemma_insert_members(*old(self), d);
        }
    }

    /// The union of two sets.
    pub fn union(&self, other: &DomainSet) -> (r: DomainSet)
        ensures
            r == self.spec_union(*other),
            r.members() == self.members().union(other.members()),
    {
        let r = DomainSet {
            identity: self.identity || other.identity,
            head: self.head || other.head,
            upstream: self.upstream || other.upstream,
            paths: self.paths || other.paths,
            operation: self.operation || other.operation,
            remotes: self.remotes || other.remotes,
            branches: self.branches || other.branches,
            tags: self.tags || other.tags,
            stashes: self.stashes || other.stashes,
            worktrees: self.worktrees || other.worktrees,
            submodules: self.submodules || other.submodules,
        };
        assert(r.members() =~= self.members().union(other.members()));
        r
    }
}

proof fn lemma_insert_has(s: DomainSet, d: RefreshDomain, e: RefreshDomain)
    ensures
        s.spec_insert(d).has(e) == (s.has(e) || e == d),
{
    match d {
        RefreshDomain::Identity => {},
        RefreshDomain::Head => {},
        RefreshDomain::Upstream => {},
        RefreshDomain::Paths => {},
        RefreshDomain::Operation => {},
        RefreshDomain::Remotes => {},
        RefreshDomain::Branches => {},
        RefreshDomain::Tags => {},
        RefreshDomain::Stashes => {},
        RefreshDomain::Worktrees => {},
        RefreshDomain::Submodules => {},
    }
}

proof fn lemma_insert_members(s: DomainSet, d: RefreshDomain)
    ensures
        s.spec_insert(d).members() == s.members().insert(d),
{
    assert forall|e: RefreshDomain| #[trigger] s.spec_insert(d).members().contains(e) == s.members().insert(d).contains(e) by {
        lemma_insert_has(s, d, e);
    }
    assert(s.spec_insert(d).members() =~= s.members().insert(d));
}

/// What a change requires: nothing, a full re-read, or a re-read of some domains.
#[derive(Debug, Clone, Copy, PartialEq, Eq, Structural, Hash)]
pub enum RefreshPlan {
    Nothing,
    Full,
    Domains(DomainSet),
}

/// The plan that does both `a` and `b`.
pub open spec fn combined(a: RefreshPlan, b: RefreshPlan) -> RefreshPlan {
    match (a, b) {
        (RefreshPlan::Full, _) => RefreshPlan::Full,
        (_, RefreshPlan::Full) => RefreshPlan::Full,
        (RefreshPlan::Nothing, p) => p,
        (p, RefreshPlan::Nothing) => p,
        (RefreshPlan::Domains(x), RefreshPlan::Domains(y)) => RefreshPlan::Domains(x.spec_union(y)),
    }
}

/// The plan for the domains listed in `s`: `Nothing` when there is none.
pub open spec fn plan_of_domains(s: Seq<RefreshDomain>) -> RefreshPlan {
    if DomainSet::of_seq(s).spec_is_empty() {
        RefreshPlan::Nothing
    } else {
        RefreshPlan::Domains(DomainSet::of_seq(s))
    }
}

impl RefreshPlan {
    /// The plan that refreshes exactly the listed domains, or `Nothing` for an empty list.
    pub fn domains<const N: usize>(domains: [RefreshDomain; N]) -> (r: RefreshPlan)
        ensures
            r == plan_of_domains(domains@),
    {
        let mut set = DomainSet::empty();
        let mut i: usize = 0;
        while i < N
            invariant
                i <= N,
                N == domains@.len(),
                set == DomainSet::of_seq(domains@.subrange(0, i as int)),
            decreases N - i,
        {
            set.insert(domains[i]);
            assert(domains@.subrange(0, i + 1).drop_last() =~= domains@.subrange(0, i as int));
            i = i + 1;
        }
        assert(domains@.subrange(0, N as int) =~= domains@);
        if set.is_empty() {
            RefreshPlan::Nothing
        } else {
            RefreshPlan::Domains(set)
        }
    }

    /// Whether the plan asks for any refresh at all.
    pub fn should_refresh(&self) -> (r: bool)
        ensures
            r == !(*self is Nothing),
    {
        match self {
            RefreshPlan::Nothing => false,
            _ => true,
        }
    }

    /// The plan that does both this plan and `other`.
    pub fn combine(self, other: RefreshPlan) -> (r: RefreshPlan)
        ensures
            r == combined(self, other),
    {
        match (self, other) {
            (RefreshPlan::Full, _) => RefreshPlan::Full,
            (_, RefreshPlan::Full) => RefreshPlan::Full,
            (RefreshPlan::Nothing, plan) => plan,
            (plan, RefreshPlan::Nothing) => plan,
            (RefreshPlan::Domains(left), RefreshPlan::Domains(right)) => RefreshPlan::Domains(
                left.union(&right),
            ),
        }
    }

    /// The domains of a targeted plan.
    pub fn domain_set(&self) -> (r: Option<&DomainSet>)
        ensures
            match *self {
                RefreshPlan::Domains(d) => r == Some(&d),
                _ => r is None,
            },
    {
        match self {
            RefreshPlan::Domains(domains) => Some(domains),
            _ => None,
        }
    }
}

/// Combining plans is commutative.
pub proof fn lemma_combine_commutative(a: RefreshPlan, b: RefreshPlan)
    ensures
        combined(a, b) == combined(b, a),
{
}

/// Combining plans is associative.
pub proof fn lemma_combine_associative(a: RefreshPlan, b: RefreshPlan, c: RefreshPlan)
    ensures
        combined(combined(a, b), c) == combined(a, combined(b, c)),
{
}

/// `Nothing` is the identity of combining, and `Full` absorbs every plan.
pub proof fn lemma_combine_identity_and_absorption(p: RefreshPlan)
    ensures
        combined(RefreshPlan::Nothing, p) == p,
        combined(p, RefreshPlan::Nothing) == p,
        combined(RefreshPlan::Full, p) == RefreshPlan::Full,
        combined(p, RefreshPlan::Full) == RefreshPlan::Full,
{
}

/// Combining a plan with itself changes nothing.
pub proof fn lemma_combine_idempotent(p: RefreshPlan)
    ensures
        combined(p, p) == p,
{
}

/// A combined plan refreshes whenever either part does, and covers every domain
/// that either targeted part names.
pub proof fn lemma_combine_covers(a: RefreshPlan, b: RefreshPlan, d: RefreshDomain)
    ensures
        (a !is Nothing || b !is Nothing) <==> (combined(a, b) !is Nothing),
        covers(a, d) ==> covers(combined(a, b), d),
        covers(b, d) ==> covers(combined(a, b), d),
{
}

/// The plan re-reads domain `d`.
pub open spec fn covers(p: RefreshPlan, d: RefreshDomain) -> bool {
    match p {
        RefreshPlan::Nothing => false,
        RefreshPlan::Full => true,
        RefreshPlan::Domains(x) => x.has(d),
    }
}

} // verus!
