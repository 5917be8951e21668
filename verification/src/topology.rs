//! Process-level MPI role topology: which contiguous block of raw-world ranks
//! each solver role owns, and how a declarative configuration resolves to a
//! local or split composition.
//!
//! Roles receive colors in declaration order and their raw-world rank ranges
//! are contiguous in declaration order, so the mapping is deterministic and
//! can be audited from configuration alone.

use crate::text::{is_blank, is_blank_str, join, owned, render_i32, signed_decimal, str_equal};
use std::hash::{Hash, Hasher};
use vstd::prelude::*;

verus! {

// ─── Models ─────────────────────────────────────────────────────────────────

/// Mathematical model of a [`RoleSpec`].
pub struct RoleSpecView {
    pub name: Seq<char>,
    pub ranks: i32,
}

/// Mathematical model of a [`RoleTopologyError`].
pub enum RoleTopologyFault {
    NoRoles,
    EmptyName,
    DuplicateName(Seq<char>),
    NonPositiveRankCount { role: Seq<char>, ranks: i32 },
    WorldSizeMismatch { configured: i32, actual: i32 },
    WorldRankOutOfRange { rank: i32, size: i32 },
}

/// Mathematical model of a [`RoleAssignment`].
pub struct RoleAssignmentView {
    pub name: Seq<char>,
    pub color: i32,
    pub world_rank: i32,
    pub world_size: i32,
    pub role_rank: i32,
    pub role_size: i32,
    pub world_start: i32,
    pub world_end: i32,
}

/// The reason role `i` (in declaration order) is rejected, if any: a blank
/// name, a non-positive rank count, or a name already used by an earlier role.
pub open spec fn role_fault(roles: Seq<RoleSpecView>, i: int) -> Option<RoleTopologyFault> {
    let r = roles[i];
    if is_blank(r.name) {
        Some(RoleTopologyFault::EmptyName)
    } else if r.ranks <= 0 {
        Some(RoleTopologyFault::NonPositiveRankCount { role: r.name, ranks: r.ranks })
    } else if exists|j: int| 0 <= j < i && #[trigger] roles[j].name == r.name {
        Some(RoleTopologyFault::DuplicateName(r.name))
    } else {
        None
    }
}

/// The first rejected role at or after index `i`.
pub open spec fn first_fault_from(roles: Seq<RoleSpecView>, i: int) -> Option<RoleTopologyFault>
    decreases roles.len() - i,
{
    if i < 0 || i >= roles.len() {
        None
    } else {
        match role_fault(roles, i) {
            Some(f) => Some(f),
            None => first_fault_from(roles, i + 1),
        }
    }
}

/// Why a list of roles is not a topology, if it is not one.
pub open spec fn topology_fault(roles: Seq<RoleSpecView>) -> Option<RoleTopologyFault> {
    if roles.len() == 0 {
        Some(RoleTopologyFault::NoRoles)
    } else {
        first_fault_from(roles, 0)
    }
}

/// A non-empty list of roles with non-blank, distinct names and positive
/// rank counts.
pub open spec fn valid_roles(roles: Seq<RoleSpecView>) -> bool {
    topology_fault(roles) is None
}

/// Sum of the rank counts of `roles`.
pub open spec fn total_ranks(roles: Seq<RoleSpecView>) -> int
    decreases roles.len(),
{
    if roles.len() == 0 {
        0
    } else {
        total_ranks(roles.drop_last()) + roles.last().ranks
    }
}

/// First raw-world rank owned by role `i`: the ranks of all earlier roles.
pub open spec fn role_start(roles: Seq<RoleSpecView>, i: int) -> int {
    total_ranks(roles.take(i))
}

/// The assignment of raw-world rank `rank` to role `i` in a world of `size`.
pub open spec fn assignment_at(
    roles: Seq<RoleSpecView>,
    i: int,
    rank: i32,
    size: i32,
) -> RoleAssignmentView {
    RoleAssignmentView {
        name: roles[i].name,
        color: i as i32,
        world_rank: rank,
        world_size: size,
        role_rank: (rank - role_start(roles, i)) as i32,
        role_size: roles[i].ranks,
        world_start: role_start(roles, i) as i32,
        world_end: role_start(roles, i + 1) as i32,
    }
}

/// The role whose contiguous block holds raw-world rank `rank`.
pub open spec fn owner_of(roles: Seq<RoleSpecView>, rank: int) -> int {
    choose|c: int| 0 <= c < roles.len() && role_start(roles, c) <= rank < #[trigger] role_start(roles, c + 1)
}

/// The result of assigning raw-world rank `world_rank` of a world of
/// `world_size` ranks: the world must have the configured rank total, the rank
/// must lie in it, and the rank then belongs to the role whose block holds it.
pub open spec fn assign_outcome(roles: Seq<RoleSpecView>, world_rank: i32, world_size: i32) -> Result<
    RoleAssignmentView,
    RoleTopologyFault,
> {
    if total_ranks(roles) != world_size {
        Err(
            RoleTopologyFault::WorldSizeMismatch {
                configured: total_ranks(roles) as i32,
                actual: world_size,
            },
        )
    } else if !(0 <= world_rank < world_size) {
        Err(RoleTopologyFault::WorldRankOutOfRange { rank: world_rank, size: world_size })
    } else {
        Ok(assignment_at(roles, owner_of(roles, world_rank as int), world_rank, world_size))
    }
}

/// Every role's rank count is positive.
pub open spec fn all_ranks_positive(roles: Seq<RoleSpecView>) -> bool {
    forall|i: int| 0 <= i < roles.len() ==> #[trigger] roles[i].ranks > 0
}

// ─── Lemmas about the contiguous layout ─────────────────────────────────────

/// `first_fault_from(roles, i)` is `None` exactly when no role at or after
/// `i` is rejected.
pub proof fn lemma_first_fault_none(roles: Seq<RoleSpecView>, i: int)
    requires
        0 <= i <= roles.len(),
    ensures
        first_fault_from(roles, i) is None <==> (forall|j: int|
            i <= j < roles.len() ==> #[trigger] role_fault(roles, j) is None),
    decreases roles.len() - i,
{
    if i < roles.len() {
        lemma_first_fault_none(roles, i + 1);
    }
}

/// A valid list of roles has positive rank counts and distinct names.
pub proof fn lemma_valid_roles_facts(roles: Seq<RoleSpecView>)
    requires
        valid_roles(roles),
    ensures
        roles.len() > 0,
        all_ranks_positive(roles),
        forall|i: int, j: int|
            0 <= i < roles.len() && 0 <= j < roles.len() && i != j ==> #[trigger] roles[i].name
                != #[trigger] roles[j].name,
{
    lemma_first_fault_none(roles, 0);
    assert forall|i: int| 0 <= i < roles.len() implies #[trigger] roles[i].ranks > 0 by {
        assert(role_fault(roles, i) is None);
    }
    assert forall|i: int, j: int|
        0 <= i < roles.len() && 0 <= j < roles.len() && i != j implies #[trigger] roles[i].name
        != #[trigger] roles[j].name by {
        if i < j {
            assert(role_fault(roles, j) is None);
        } else {
            assert(role_fault(roles, i) is None);
        }
    }
}

/// The start of role `i + 1` is the start of role `i` plus its rank count.
pub proof fn lemma_role_start_step(roles: Seq<RoleSpecView>, i: int)
    requires
        0 <= i < roles.len(),
    ensures
        role_start(roles, i + 1) == role_start(roles, i) + roles[i].ranks,
{
    assert(roles.take(i + 1).drop_last() =~= roles.take(i));
}

/// The last role ends at the total rank count.
pub proof fn lemma_role_start_end(roles: Seq<RoleSpecView>)
    ensures
        role_start(roles, roles.len() as int) == total_ranks(roles),
{
    assert(roles.take(roles.len() as int) =~= roles);
}

/// With positive rank counts every role start is non-negative.
pub proof fn lemma_role_start_nonneg(roles: Seq<RoleSpecView>, i: int)
    requires
        all_ranks_positive(roles),
        0 <= i <= roles.len(),
    ensures
        0 <= role_start(roles, i),
    decreases i,
{
    if i > 0 {
        lemma_role_start_step(roles, i - 1);
        lemma_role_start_nonneg(roles, i - 1);
    } else {
        assert(roles.take(0) =~= Seq::<RoleSpecView>::empty());
    }
}

/// With positive rank counts, role starts strictly increase and every role
/// start is non-negative; in particular there are no more roles than ranks.
pub proof fn lemma_role_start_monotone(roles: Seq<RoleSpecView>, i: int, j: int)
    requires
        all_ranks_positive(roles),
        0 <= i <= j <= roles.len(),
    ensures
        role_start(roles, i) + (j - i) <= role_start(roles, j),
        0 <= role_start(roles, i),
    decreases j - i,
{
    lemma_role_start_nonneg(roles, i);
    if i < j {
        lemma_role_start_step(roles, j - 1);
        lemma_role_start_monotone(roles, i, j - 1);
    }
}

/// Every raw-world rank below the configured total lies in the block of
/// exactly one role: the role blocks partition `0..total`.
pub proof fn law_rank_has_unique_role(roles: Seq<RoleSpecView>, rank: int)
    requires
        all_ranks_positive(roles),
        0 <= rank < total_ranks(roles),
    ensures
        exists|c: int|
            0 <= c < roles.len() && role_start(roles, c) <= rank < #[trigger] role_start(roles, c + 1),
        forall|c1: int, c2: int|
            0 <= c1 < roles.len() && 0 <= c2 < roles.len() && role_start(roles, c1) <= rank
                < #[trigger] role_start(roles, c1 + 1) && role_start(roles, c2) <= rank
                < #[trigger] role_start(roles, c2 + 1) ==> c1 == c2,
{
    lemma_role_start_end(roles);
    lemma_owner_exists(roles, rank, 0);
    assert forall|c1: int, c2: int|
        0 <= c1 < roles.len() && 0 <= c2 < roles.len() && role_start(roles, c1) <= rank
            < #[trigger] role_start(roles, c1 + 1) && role_start(roles, c2) <= rank
            < #[trigger] role_start(roles, c2 + 1) implies c1 == c2 by {
        if c1 < c2 {
            lemma_role_start_monotone(roles, c1 + 1, c2);
        } else if c2 < c1 {
            lemma_role_start_monotone(roles, c2 + 1, c1);
        }
    }
}

proof fn lemma_owner_exists(roles: Seq<RoleSpecView>, rank: int, i: int)
    requires
        all_ranks_positive(roles),
        0 <= i <= roles.len(),
        role_start(roles, i) <= rank < total_ranks(roles),
        role_start(roles, roles.len() as int) == total_ranks(roles),
    ensures
        exists|c: int|
            0 <= c < roles.len() && role_start(roles, c) <= rank < #[trigger] role_start(roles, c + 1),
    decreases roles.len() - i,
{
    if i == roles.len() {
    } else if rank < role_start(roles, i + 1) {
        assert(role_start(roles, i) <= rank < role_start(roles, i + 1));
    } else {
        lemma_owner_exists(roles, rank, i + 1);
    }
}

/// A split composition is only chosen when the launched world has exactly the
/// configured number of ranks, so every launched rank can be assigned a role.
pub proof fn law_split_plan_covers_world(
    mode: TopologyMode,
    roles: Seq<RoleSpecView>,
    world_size: i32,
)
    requires
        resolve_outcome(mode, roles, world_size) == Ok::<PlanKind, BootstrapFault>(PlanKind::Split),
        total_ranks(roles) <= i32::MAX,
    ensures
        valid_roles(roles),
        total_ranks(roles) == world_size,
{
    lemma_valid_roles_facts(roles);
    lemma_role_start_end(roles);
    lemma_role_start_nonneg(roles, roles.len() as int);
}

/// A local composition is only chosen for a single-rank launch.
pub proof fn law_local_plan_is_single_rank(
    mode: TopologyMode,
    roles: Seq<RoleSpecView>,
    world_size: i32,
)
    requires
        resolve_outcome(mode, roles, world_size) == Ok::<PlanKind, BootstrapFault>(PlanKind::Local),
    ensures
        valid_roles(roles),
        world_size == 1,
        mode != TopologyMode::Split,
{
}

// ─── RoleSpec ───────────────────────────────────────────────────────────────

/// One solver role and the number of MPI ranks assigned to it.
#[derive(Clone, Debug, PartialEq, Eq)]
pub struct RoleSpec {
    name: String,
    ranks: i32,
}

impl View for RoleSpec {
    type V = RoleSpecView;

    closed spec fn view(&self) -> RoleSpecView {
        RoleSpecView { name: self.name@, ranks: self.ranks }
    }
}

impl RoleSpec {
    /// Construct a role specification.
    pub fn new(name: &str, ranks: i32) -> (r: Self)
        ensures
            r@ == (RoleSpecView { name: name@, ranks }),
    {
        RoleSpec { name: name.to_owned(), ranks }
    }

    /// Stable role name used by configuration and diagnostics.
    pub fn name(&self) -> (r: &str)
        ensures
            r@ == self@.name,
    {
        self.name.as_str()
    }

    /// Number of raw-world ranks assigned to this role.
    pub fn ranks(&self) -> (r: i32)
        ensures
            r == self@.ranks,
    {
        self.ranks
    }

    fn duplicate(&self) -> (r: Self)
        ensures
            r@ == self@,
    {
        RoleSpec { name: self.name.clone(), ranks: self.ranks }
    }
}

/// The models of a list of role specifications.
pub open spec fn roles_view(roles: Seq<RoleSpec>) -> Seq<RoleSpecView> {
    roles.map_values(|r: RoleSpec| r@)
}

/// The first fault found from index 0 is the one found from index `i` when
/// every earlier role is accepted.
proof fn lemma_first_fault_skip(roles: Seq<RoleSpecView>, k: int, i: int)
    requires
        0 <= k <= i < roles.len(),
        forall|j: int| 0 <= j < i ==> #[trigger] role_fault(roles, j) is None,
    ensures
        first_fault_from(roles, k) == first_fault_from(roles, i),
    decreases i - k,
{
    if k < i {
        assert(role_fault(roles, k) is None);
        lemma_first_fault_skip(roles, k + 1, i);
    }
}

// ─── RoleTopologyError ──────────────────────────────────────────────────────

/// Invalid role topology or assignment.
#[derive(Clone, Debug, PartialEq, Eq)]
pub enum RoleTopologyError {
    /// No roles were configured.
    NoRoles,
    /// A role name was empty.
    EmptyName,
    /// The same role name appeared more than once.
    DuplicateName(String),
    /// A role requested zero or fewer ranks.
    NonPositiveRankCount {
        /// Role with the invalid count.
        role: String,
        /// Invalid rank count.
        ranks: i32,
    },
    /// Configured rank counts do not equal the launched world size.
    WorldSizeMismatch {
        /// Sum of configured role counts.
        configured: i32,
        /// Launched raw-world size.
        actual: i32,
    },
    /// A requested raw-world rank was invalid.
    WorldRankOutOfRange {
        /// Invalid rank.
        rank: i32,
        /// Raw-world size.
        size: i32,
    },
}

impl View for RoleTopologyError {
    type V = RoleTopologyFault;

    open spec fn view(&self) -> RoleTopologyFault {
        match self {
            RoleTopologyError::NoRoles => RoleTopologyFault::NoRoles,
            RoleTopologyError::EmptyName => RoleTopologyFault::EmptyName,
            RoleTopologyError::DuplicateName(n) => RoleTopologyFault::DuplicateName(n@),
            RoleTopologyError::NonPositiveRankCount { role, ranks } => {
                RoleTopologyFault::NonPositiveRankCount { role: role@, ranks: *ranks }
            },
            RoleTopologyError::WorldSizeMismatch { configured, actual } => {
                RoleTopologyFault::WorldSizeMismatch { configured: *configured, actual: *actual }
            },
            RoleTopologyError::WorldRankOutOfRange { rank, size } => {
                RoleTopologyFault::WorldRankOutOfRange { rank: *rank, size: *size }
            },
        }
    }
}

/// The text of a role topology error.
pub open spec fn topology_error_text(e: RoleTopologyFault) -> Seq<char> {
    match e {
        RoleTopologyFault::NoRoles => "MPI role topology must contain at least one role"@,
        RoleTopologyFault::EmptyName => "MPI role names must not be empty"@,
        RoleTopologyFault::DuplicateName(n) => "duplicate MPI role name `"@ + n + "`"@,
        RoleTopologyFault::NonPositiveRankCount { role, ranks } => "MPI role `"@ + role
            + "` must have at least one rank, got "@ + signed_decimal(ranks as int),
        RoleTopologyFault::WorldSizeMismatch { configured, actual } => "MPI role topology requests "@
            + signed_decimal(configured as int) + " ranks but MPI_COMM_WORLD has "@ + signed_decimal(
            actual as int,
        ),
        RoleTopologyFault::WorldRankOutOfRange { rank, size } => "raw MPI world rank "@
            + signed_decimal(rank as int) + " is outside 0.."@ + signed_decimal(size as int),
    }
}

impl RoleTopologyError {
    /// The diagnostic text of this error.
    pub fn message(&self) -> (s: String)
        ensures
            s@ == topology_error_text(self@),
    {
        match self {
            RoleTopologyError::NoRoles => owned("MPI role topology must contain at least one role"),
            RoleTopologyError::EmptyName => owned("MPI role names must not be empty"),
            RoleTopologyError::DuplicateName(name) => {
                join(join(owned("duplicate MPI role name `"), name.as_str()), "`")
            },
            RoleTopologyError::NonPositiveRankCount { role, ranks } => {
                let s = join(owned("MPI role `"), role.as_str());
                let s = join(s, "` must have at least one rank, got ");
                join(s, render_i32(*ranks).as_str())
            },
            RoleTopologyError::WorldSizeMismatch { configured, actual } => {
                let s = join(owned("MPI role topology requests "), render_i32(*configured).as_str());
                let s = join(s, " ranks but MPI_COMM_WORLD has ");
                join(s, render_i32(*actual).as_str())
            },
            RoleTopologyError::WorldRankOutOfRange { rank, size } => {
                let s = join(owned("raw MPI world rank "), render_i32(*rank).as_str());
                let s = join(s, " is outside 0..");
                join(s, render_i32(*size).as_str())
            },
        }
    }
}

impl Clone for RoleTopology {
    fn clone(&self) -> (r: Self)
        ensures
            r@ == self@,
    {
        self.duplicate()
    }
}

// ─── RoleTopology ───────────────────────────────────────────────────────────

/// Ordered, contiguous assignment of raw-world ranks to solver roles.
///
/// Roles receive colors in declaration order. Their rank ranges are also
/// contiguous in declaration order, making the mapping deterministic and easy
/// to audit from configuration alone.
#[derive(Debug, PartialEq, Eq)]
pub struct RoleTopology {
    roles: Vec<RoleSpec>,
}

impl View for RoleTopology {
    type V = Seq<RoleSpecView>;

    closed spec fn view(&self) -> Seq<RoleSpecView> {
        roles_view(self.roles@)
    }
}

impl RoleTopology {
    #[verifier::type_invariant]
    spec fn inv(self) -> bool {
        valid_roles(roles_view(self.roles@))
    }

    /// A copy of this topology.
    pub fn duplicate(&self) -> (r: Self)
        ensures
            r@ == self@,
    {
        proof {
            use_type_invariant(self);
        }
        let n = self.roles.len();
        let mut roles: Vec<RoleSpec> = Vec::new();
        let mut i: usize = 0;
        while i < n
            invariant
                0 <= i <= n,
                n == self.roles.len(),
                roles@.len() == i,
                forall|j: int| 0 <= j < i ==> #[trigger] roles@[j]@ == self.roles@[j]@,
            decreases n - i,
        {
            roles.push(self.roles[i].duplicate());
            i += 1;
        }
        assert(roles_view(roles@) =~= roles_view(self.roles@));
        RoleTopology { roles }
    }

    /// Construct and validate a role topology independent of a particular MPI
    /// world size. World-size equality is checked by [`assign`](Self::assign).
    ///
    /// Roles are checked in declaration order; the first rejected role (blank
    /// name, non-positive rank count, or a name used before) decides the error.
    pub fn new(roles: Vec<RoleSpec>) -> (r: Result<Self, RoleTopologyError>)
        ensures
            r is Ok <==> valid_roles(roles_view(roles@)),
            r matches Ok(t) ==> t@ == roles_view(roles@),
            r matches Err(e) ==> topology_fault(roles_view(roles@)) == Some(e@),
    {
        let ghost v = roles_view(roles@);
        let n = roles.len();
        if n == 0 {
            return Err(RoleTopologyError::NoRoles);
        }
        let mut i: usize = 0;
        while i < n
            invariant
                0 <= i <= n,
                n == roles.len(),
                v == roles_view(roles@),
                forall|j: int| 0 <= j < i ==> #[trigger] role_fault(v, j) is None,
            decreases n - i,
        {
            let role = &roles[i];
            assert(v[i as int] == role@);
            if is_blank_str(role.name.as_str()) {
                proof {
                    lemma_first_fault_skip(v, 0, i as int);
                }
                return Err(RoleTopologyError::EmptyName);
            }
            if role.ranks <= 0 {
                proof {
                    lemma_first_fault_skip(v, 0, i as int);
                }
                return Err(
                    RoleTopologyError::NonPositiveRankCount {
                        role: role.name.clone(),
                        ranks: role.ranks,
                    },
                );
            }
            let mut k: usize = 0;
            while k < i
                invariant
                    0 <= k <= i < n,
                    n == roles.len(),
                    v == roles_view(roles@),
                    role@ == v[i as int],
                    !is_blank(v[i as int].name),
                    v[i as int].ranks > 0,
                    forall|j: int| 0 <= j < i ==> #[trigger] role_fault(v, j) is None,
                    forall|m: int| 0 <= m < k ==> #[trigger] v[m].name != v[i as int].name,
                decreases i - k,
            {
                assert(v[k as int] == roles@[k as int]@);
                if roles[k].name == role.name {
                    proof {
                        lemma_first_fault_skip(v, 0, i as int);
                        assert(v[k as int].name == v[i as int].name);
                        assert(!is_blank(v[i as int].name));
                        assert(role_fault(v, i as int) == Some(
                            RoleTopologyFault::DuplicateName(v[i as int].name),
                        ));
                        assert(first_fault_from(v, i as int) == role_fault(v, i as int));
                    }
                    let name = role.name.clone();
                    assert(name@ == v[i as int].name);
                    return Err(RoleTopologyError::DuplicateName(name));
                }
                k += 1;
            }
            assert(role_fault(v, i as int) is None);
            i += 1;
        }
        proof {
            lemma_first_fault_none(v, 0);
        }
        let t = RoleTopology { roles };
        Ok(t)
    }

    /// Ordered role specifications.
    pub fn roles(&self) -> (r: &[RoleSpec])
        ensures
            roles_view(r@) == self@,
    {
        self.roles.as_slice()
    }

    /// Total ranks requested by all roles.
    pub fn required_world_size(&self) -> (r: i32)
        requires
            total_ranks(self@) <= i32::MAX,
        ensures
            r == total_ranks(self@),
    {
        proof {
            use_type_invariant(self);
            lemma_valid_roles_facts(self@);
            lemma_role_start_end(self@);
        }
        let ghost v = self@;
        let n = self.roles.len();
        let mut sum: i32 = 0;
        let mut i: usize = 0;
        assert(v.take(0) =~= Seq::<RoleSpecView>::empty());
        while i < n
            invariant
                0 <= i <= n,
                n == v.len(),
                v == roles_view(self.roles@),
                all_ranks_positive(v),
                total_ranks(v) <= i32::MAX,
                role_start(v, n as int) == total_ranks(v),
                sum == role_start(v, i as int),
            decreases n - i,
        {
            proof {
                lemma_role_start_step(v, i as int);
                lemma_role_start_monotone(v, i as int + 1, n as int);
            }
            assert(v[i as int] == self.roles@[i as int]@);
            sum = sum + self.roles[i].ranks;
            i += 1;
        }
        sum
    }

    /// Half-open raw-world rank range occupied by the named role, if present.
    ///
    /// Cross-role couplers use this to resolve a peer role's coupling rank
    /// without re-deriving the contiguous declaration-order layout by hand.
    pub fn role_world_range(&self, name: &str) -> (r: Option<std::ops::Range<i32>>)
        requires
            total_ranks(self@) <= i32::MAX,
        ensures
            r is Some <==> exists|i: int| 0 <= i < self@.len() && #[trigger] self@[i].name == name@,
            forall|i: int|
                0 <= i < self@.len() && #[trigger] self@[i].name == name@ ==> (r matches Some(rg)
                    && rg.start == role_start(self@, i) && rg.end == role_start(self@, i + 1)),
    {
        proof {
            use_type_invariant(self);
            lemma_valid_roles_facts(self@);
            lemma_role_start_end(self@);
        }
        let ghost v = self@;
        let n = self.roles.len();
        let mut start: i32 = 0;
        let mut i: usize = 0;
        assert(v.take(0) =~= Seq::<RoleSpecView>::empty());
        while i < n
            invariant
                0 <= i <= n,
                n == v.len(),
                v == roles_view(self.roles@),
                all_ranks_positive(v),
                forall|a: int, b: int|
                    0 <= a < v.len() && 0 <= b < v.len() && a != b ==> #[trigger] v[a].name
                        != #[trigger] v[b].name,
                total_ranks(v) <= i32::MAX,
                role_start(v, n as int) == total_ranks(v),
                start == role_start(v, i as int),
                forall|j: int| 0 <= j < i ==> #[trigger] v[j].name != name@,
            decreases n - i,
        {
            proof {
                lemma_role_start_step(v, i as int);
                lemma_role_start_monotone(v, i as int + 1, n as int);
            }
            let role = &self.roles[i];
            assert(v[i as int] == role@);
            let end = start + role.ranks;
            if str_equal(role.name.as_str(), name) {
                assert(self@[i as int].name == name@);
                let rg = start..end;
                assert(rg.start == start && rg.end == end);
                return Some(rg);
            }
            start = end;
            i += 1;
        }
        None
    }

    /// Resolve one raw-world rank into its role, role-local rank, and color.
    ///
    /// Succeeds exactly when the world size equals the configured rank total
    /// and the rank lies in `0..world_size`; the role is then the one whose
    /// contiguous block holds the rank.
    pub fn assign(&self, world_rank: i32, world_size: i32) -> (r: Result<
        RoleAssignment,
        RoleTopologyError,
    >)
        requires
            total_ranks(self@) <= i32::MAX,
        ensures
            r is Ok <==> (total_ranks(self@) == world_size && 0 <= world_rank < world_size),
            r matches Ok(a) ==> {
                let c = a@.color as int;
                &&& 0 <= c < self@.len()
                &&& role_start(self@, c) <= world_rank < role_start(self@, c + 1)
                &&& a@ == assignment_at(self@, c, world_rank, world_size)
            },
            r matches Err(e) ==> e@ == if total_ranks(self@) != world_size {
                RoleTopologyFault::WorldSizeMismatch {
                    configured: total_ranks(self@) as i32,
                    actual: world_size,
                }
            } else {
                RoleTopologyFault::WorldRankOutOfRange { rank: world_rank, size: world_size }
            },
            match r {
                Ok(a) => assign_outcome(self@, world_rank, world_size) == Ok::<
                    RoleAssignmentView,
                    RoleTopologyFault,
                >(a@),
                Err(e) => assign_outcome(self@, world_rank, world_size) == Err::<
                    RoleAssignmentView,
                    RoleTopologyFault,
                >(e@),
            },
    {
        proof {
            use_type_invariant(self);
            lemma_valid_roles_facts(self@);
            lemma_role_start_end(self@);
            lemma_role_start_monotone(self@, 0, self@.len() as int);
        }
        let required = self.required_world_size();
        if required != world_size {
            return Err(
                RoleTopologyError::WorldSizeMismatch { configured: required, actual: world_size },
            );
        }
        if !(0 <= world_rank && world_rank < world_size) {
            return Err(RoleTopologyError::WorldRankOutOfRange { rank: world_rank, size: world_size });
        }
        let ghost v = self@;
        let n = self.roles.len();
        let mut start: i32 = 0;
        let mut i: usize = 0;
        assert(v.take(0) =~= Seq::<RoleSpecView>::empty());
        while i < n
            invariant
                0 <= i <= n,
                n == v.len(),
                v == roles_view(self.roles@),
                all_ranks_positive(v),
                total_ranks(v) <= i32::MAX,
                total_ranks(v) == world_size,
                0 <= world_rank < world_size,
                n <= total_ranks(v),
                role_start(v, n as int) == total_ranks(v),
                start == role_start(v, i as int),
                start <= world_rank,
            decreases n - i,
        {
            proof {
                lemma_role_start_step(v, i as int);
                lemma_role_start_monotone(v, i as int + 1, n as int);
            }
            let role = &self.roles[i];
            assert(v[i as int] == role@);
            let end = start + role.ranks;
            if world_rank < end {
                proof {
                    law_rank_has_unique_role(v, world_rank as int);
                    assert(role_start(v, i as int) <= world_rank < role_start(v, i + 1));
                    let c = owner_of(v, world_rank as int);
                    assert(0 <= c < v.len() && role_start(v, c) <= world_rank < role_start(v, c + 1));
                }
                return Ok(
                    RoleAssignment {
                        name: role.name.clone(),
                        color: i as i32,
                        world_rank,
                        world_size,
                        role_rank: world_rank - start,
                        role_size: role.ranks,
                        world_start: start,
                        world_end: end,
                    },
                );
            }
            start = end;
            i += 1;
        }
        proof {
            assert(false);
        }
        Err(RoleTopologyError::WorldRankOutOfRange { rank: world_rank, size: world_size })
    }
}

// ─── RoleAssignment ─────────────────────────────────────────────────────────

/// This process's resolved solver role.
#[derive(Clone, Debug, PartialEq, Eq)]
pub struct RoleAssignment {
    name: String,
    color: i32,
    world_rank: i32,
    world_size: i32,
    role_rank: i32,
    role_size: i32,
    world_start: i32,
    world_end: i32,
}

impl View for RoleAssignment {
    type V = RoleAssignmentView;

    closed spec fn view(&self) -> RoleAssignmentView {
        RoleAssignmentView {
            name: self.name@,
            color: self.color,
            world_rank: self.world_rank,
            world_size: self.world_size,
            role_rank: self.role_rank,
            role_size: self.role_size,
            world_start: self.world_start,
            world_end: self.world_end,
        }
    }
}

impl RoleAssignment {
    /// Stable role name.
    pub fn name(&self) -> (r: &str)
        ensures
            r@ == self@.name,
    {
        self.name.as_str()
    }

    /// MPI split color assigned in topology declaration order.
    pub fn color(&self) -> (r: i32)
        ensures
            r == self@.color,
    {
        self.color
    }

    /// Rank in raw `MPI_COMM_WORLD`.
    pub fn world_rank(&self) -> (r: i32)
        ensures
            r == self@.world_rank,
    {
        self.world_rank
    }

    /// Size of raw `MPI_COMM_WORLD`.
    pub fn world_size(&self) -> (r: i32)
        ensures
            r == self@.world_size,
    {
        self.world_size
    }

    /// Rank within this role's solver communicator.
    pub fn role_rank(&self) -> (r: i32)
        ensures
            r == self@.role_rank,
    {
        self.role_rank
    }

    /// Size of this role's solver communicator.
    pub fn role_size(&self) -> (r: i32)
        ensures
            r == self@.role_size,
    {
        self.role_size
    }

    /// Half-open raw-world rank range occupied by this role.
    pub fn world_range(&self) -> (r: std::ops::Range<i32>)
        ensures
            r.start == self@.world_start,
            r.end == self@.world_end,
    {
        self.world_start..self.world_end
    }
}

// ─── Declarative bootstrap configuration ────────────────────────────────────

/// How a single binary should compose its solver roles.
///
/// This is the one declarative knob that distinguishes an in-process
/// composition from an MPI role split. It is read from configuration
/// *before* any App is built.
#[derive(Clone, Copy, Debug, PartialEq, Eq, Structural)]
pub enum TopologyMode {
    /// Pick [`Local`](Self::Local) at world size 1 and [`Split`](Self::Split)
    /// when the launched world exactly matches the configured role ranks.
    /// Any other world size is rejected rather than guessed.
    Auto,
    /// Compose every role inside one process over an in-memory transport.
    /// Rejected when launched with more than one rank.
    Local,
    /// Split raw `MPI_COMM_WORLD` into one role-local communicator per role.
    /// Requires the launched world size to equal the configured rank total.
    Split,
}

impl Default for TopologyMode {
    fn default() -> (r: Self)
        ensures
            r == TopologyMode::Auto,
    {
        TopologyMode::Auto
    }
}

/// One declaratively configured role and its rank count.
#[derive(Clone, Debug, PartialEq, Eq)]
pub struct RoleConfig {
    /// Stable role name; must match the physics/config tables downstream.
    pub name: String,
    /// Raw-world ranks assigned to this role.
    pub ranks: i32,
}

/// Declarative bootstrap topology (the `[topology]` TOML table).
#[derive(Clone, Debug, PartialEq, Eq)]
pub struct TopologyConfig {
    /// Composition mode. Defaults to [`TopologyMode::Auto`].
    pub mode: TopologyMode,
    /// Named role rank allocations, in declaration (color) order.
    pub roles: Vec<RoleConfig>,
}

impl Default for TopologyConfig {
    fn default() -> (r: Self)
        ensures
            r.mode == TopologyMode::Auto,
            r.roles@.len() == 0,
    {
        TopologyConfig { mode: TopologyMode::Auto, roles: Vec::new() }
    }
}

/// The role models a configuration declares.
pub open spec fn config_roles_view(roles: Seq<RoleConfig>) -> Seq<RoleSpecView> {
    roles.map_values(|r: RoleConfig| RoleSpecView { name: r.name@, ranks: r.ranks })
}

/// Whether the composition keeps every role in this process or splits the
/// MPI world.
pub enum PlanKind {
    Local,
    Split,
}

/// Mathematical model of a [`BootstrapError`].
pub enum BootstrapFault {
    Topology(RoleTopologyFault),
    LocalRequiresSingleRank { world_size: i32 },
    WorldSizeMismatch { configured: i32, actual: i32 },
    AutoAmbiguous { required: i32, actual: i32 },
    ConfigMismatch,
}

/// The composition a configuration resolves to for a launched world size:
/// invalid roles are rejected first; `local` needs exactly one rank; `split`
/// needs the configured rank total; `auto` picks local at one rank, split at
/// the configured total, and rejects anything else.
pub open spec fn resolve_outcome(
    mode: TopologyMode,
    roles: Seq<RoleSpecView>,
    world_size: i32,
) -> Result<PlanKind, BootstrapFault> {
    match topology_fault(roles) {
        Some(f) => Err(BootstrapFault::Topology(f)),
        None => {
            let required = total_ranks(roles) as i32;
            match mode {
                TopologyMode::Local => if world_size != 1 {
                    Err(BootstrapFault::LocalRequiresSingleRank { world_size })
                } else {
                    Ok(PlanKind::Local)
                },
                TopologyMode::Split => if world_size != required {
                    Err(BootstrapFault::WorldSizeMismatch { configured: required, actual: world_size })
                } else {
                    Ok(PlanKind::Split)
                },
                TopologyMode::Auto => if world_size == 1 {
                    Ok(PlanKind::Local)
                } else if world_size == required {
                    Ok(PlanKind::Split)
                } else {
                    Err(BootstrapFault::AutoAmbiguous { required, actual: world_size })
                },
            }
        },
    }
}

/// The configured rank total fits the MPI rank type whenever the roles are
/// valid (invalid roles are rejected before any total is taken).
pub open spec fn config_total_fits(roles: Seq<RoleSpecView>) -> bool {
    valid_roles(roles) ==> total_ranks(roles) <= i32::MAX
}

impl TopologyConfig {
    /// Build and validate the [`RoleTopology`] this config declares. Applies
    /// the same name/rank-count rules as [`RoleTopology::new`].
    pub fn topology(&self) -> (r: Result<RoleTopology, RoleTopologyError>)
        ensures
            r is Ok <==> valid_roles(config_roles_view(self.roles@)),
            r matches Ok(t) ==> t@ == config_roles_view(self.roles@),
            r matches Err(e) ==> topology_fault(config_roles_view(self.roles@)) == Some(e@),
    {
        let n = self.roles.len();
        let mut specs: Vec<RoleSpec> = Vec::new();
        let mut i: usize = 0;
        while i < n
            invariant
                0 <= i <= n,
                n == self.roles.len(),
                specs@.len() == i,
                forall|j: int|
                    0 <= j < i ==> #[trigger] specs@[j]@ == (RoleSpecView {
                        name: self.roles@[j].name@,
                        ranks: self.roles@[j].ranks,
                    }),
            decreases n - i,
        {
            let role = &self.roles[i];
            specs.push(RoleSpec::new(role.name.as_str(), role.ranks));
            i += 1;
        }
        assert(roles_view(specs@) =~= config_roles_view(self.roles@));
        RoleTopology::new(specs)
    }

    /// Resolve this declaration against the launched raw-world size into a
    /// concrete [`TopologyPlan`]. Fails closed on every ambiguous or
    /// mismatched combination rather than degrading to a default.
    pub fn resolve(&self, world_size: i32) -> (r: Result<TopologyPlan, BootstrapError>)
        requires
            config_total_fits(config_roles_view(self.roles@)),
        ensures
            match r {
                Ok(p) => resolve_outcome(self.mode, config_roles_view(self.roles@), world_size)
                    == Ok::<PlanKind, BootstrapFault>(p.kind()) && p.topology_view()
                    == config_roles_view(self.roles@),
                Err(e) => resolve_outcome(self.mode, config_roles_view(self.roles@), world_size)
                    == Err::<PlanKind, BootstrapFault>(e@),
            },
    {
        let topology = match self.topology() {
            Ok(t) => t,
            Err(e) => return Err(BootstrapError::Topology(e)),
        };
        let required = topology.required_world_size();
        match self.mode {
            TopologyMode::Local => {
                if world_size != 1 {
                    return Err(BootstrapError::LocalRequiresSingleRank { world_size });
                }
                Ok(TopologyPlan::Local(topology))
            },
            TopologyMode::Split => {
                if world_size != required {
                    return Err(
                        BootstrapError::WorldSizeMismatch { configured: required, actual: world_size },
                    );
                }
                Ok(TopologyPlan::Split(topology))
            },
            TopologyMode::Auto => {
                if world_size == 1 {
                    Ok(TopologyPlan::Local(topology))
                } else if world_size == required {
                    Ok(TopologyPlan::Split(topology))
                } else {
                    Err(BootstrapError::AutoAmbiguous { required, actual: world_size })
                }
            },
        }
    }
}

/// The resolved composition a binary should perform for the launched world.
#[derive(Clone, Debug, PartialEq, Eq)]
pub enum TopologyPlan {
    /// Compose every role in this one process over an in-memory transport.
    Local(RoleTopology),
    /// Split raw `MPI_COMM_WORLD`; this process owns exactly one role.
    Split(RoleTopology),
}

impl TopologyPlan {
    /// Which composition the plan selects.
    pub open spec fn kind(&self) -> PlanKind {
        match self {
            TopologyPlan::Local(_) => PlanKind::Local,
            TopologyPlan::Split(_) => PlanKind::Split,
        }
    }

    /// The validated role layout the plan carries.
    pub open spec fn topology_view(&self) -> Seq<RoleSpecView> {
        match self {
            TopologyPlan::Local(t) => t@,
            TopologyPlan::Split(t) => t@,
        }
    }
}

/// Declarative bootstrap resolution failure. Every variant is a fail-closed
/// rejection: the binary refuses to compose rather than guess.
#[derive(Clone, Debug, PartialEq, Eq)]
pub enum BootstrapError {
    /// The declared roles are themselves invalid.
    Topology(RoleTopologyError),
    /// `mode = "local"` but the launch has more than one rank.
    LocalRequiresSingleRank {
        /// Launched raw-world size.
        world_size: i32,
    },
    /// `mode = "split"` but the launch size does not match the role total.
    WorldSizeMismatch {
        /// Sum of configured role ranks.
        configured: i32,
        /// Launched raw-world size.
        actual: i32,
    },
    /// `mode = "auto"` and the launch matched neither local (1) nor the
    /// configured split total.
    AutoAmbiguous {
        /// Sum of configured role ranks.
        required: i32,
        /// Launched raw-world size.
        actual: i32,
    },
    /// Ranks disagreed on the parsed configuration digest.
    ConfigMismatch,
}

impl View for BootstrapError {
    type V = BootstrapFault;

    open spec fn view(&self) -> BootstrapFault {
        match self {
            BootstrapError::Topology(e) => BootstrapFault::Topology(e@),
            BootstrapError::LocalRequiresSingleRank { world_size } => {
                BootstrapFault::LocalRequiresSingleRank { world_size: *world_size }
            },
            BootstrapError::WorldSizeMismatch { configured, actual } => {
                BootstrapFault::WorldSizeMismatch { configured: *configured, actual: *actual }
            },
            BootstrapError::AutoAmbiguous { required, actual } => {
                BootstrapFault::AutoAmbiguous { required: *required, actual: *actual }
            },
            BootstrapError::ConfigMismatch => BootstrapFault::ConfigMismatch,
        }
    }
}

/// The text of a bootstrap resolution error.
pub open spec fn bootstrap_error_text(e: BootstrapFault) -> Seq<char> {
    match e {
        BootstrapFault::Topology(t) => topology_error_text(t),
        BootstrapFault::LocalRequiresSingleRank { world_size } => "topology mode `local` requires a single rank, but the launch has "@
            + signed_decimal(world_size as int),
        BootstrapFault::WorldSizeMismatch { configured, actual } => "topology mode `split` requests "@
            + signed_decimal(configured as int) + " ranks but MPI_COMM_WORLD has "@ + signed_decimal(
            actual as int,
        ),
        BootstrapFault::AutoAmbiguous { required, actual } => "topology mode `auto` cannot resolve world size "@
            + signed_decimal(actual as int) + ": expected 1 (local) or "@ + signed_decimal(
            required as int,
        ) + " (split)"@,
        BootstrapFault::ConfigMismatch => "ranks parsed different bootstrap configurations; every rank must read an identical topology"@,
    }
}

impl BootstrapError {
    /// The diagnostic text of this error.
    pub fn message(&self) -> (s: String)
        ensures
            s@ == bootstrap_error_text(self@),
    {
        match self {
            BootstrapError::Topology(e) => e.message(),
            BootstrapError::LocalRequiresSingleRank { world_size } => {
                let s = owned("topology mode `local` requires a single rank, but the launch has ");
                join(s, render_i32(*world_size).as_str())
            },
            BootstrapError::WorldSizeMismatch { configured, actual } => {
                let s = join(owned("topology mode `split` requests "), render_i32(*configured).as_str());
                let s = join(s, " ranks but MPI_COMM_WORLD has ");
                join(s, render_i32(*actual).as_str())
            },
            BootstrapError::AutoAmbiguous { required, actual } => {
                let s = join(owned("topology mode `auto` cannot resolve world size "), render_i32(*actual).as_str());
                let s = join(s, ": expected 1 (local) or ");
                let s = join(s, render_i32(*required).as_str());
                join(s, " (split)")
            },
            BootstrapError::ConfigMismatch => owned(
                "ranks parsed different bootstrap configurations; every rank must read an identical topology",
            ),
        }
    }
}

// ─── Configuration digest ───────────────────────────────────────────────────

/// The digest std's `DefaultHasher` (created with `DefaultHasher::new`, whose
/// keys are fixed) gives the byte slice `bytes` when the slice is hashed. It
/// is one value per executable: the slice's length enters the hash at the
/// platform's `usize` width, and std does not fix the algorithm across
/// releases, so digests are only compared between ranks of one binary.
pub uninterp spec fn spec_config_digest(bytes: Seq<u8>) -> u64;

/// A stable, process-local digest of configuration bytes.
///
/// Used to cross-check that every rank of a single-binary launch parsed an
/// identical configuration: `DefaultHasher::new` uses fixed keys, so the same
/// bytes hash to the same value on every rank of the same executable. The
/// contract names the digest (`spec_config_digest`) as a function of the bytes
/// alone; the hash algorithm itself is std's and is not stated.
#[verifier::external_body]
pub fn config_digest(bytes: &[u8]) -> (d: u64)
    ensures
        d == spec_config_digest(bytes@),
{
    let mut hasher = std::collections::hash_map::DefaultHasher::new();
    bytes.hash(&mut hasher);
    hasher.finish()
}

} // verus!
