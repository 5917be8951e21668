//! MPI bootstrap decisions: the lifecycle of the MPMD color split, and the
//! role runtime a launch resolves to.
//!
//! MPI itself is driven by the caller. The lifecycle here decides, for each
//! request, whether the world must be split now, whether a split already made
//! serves it, or whether the request breaks the lifecycle; the caller
//! performs the split it is told to perform.

use crate::text::{join, owned, render_i32, signed_decimal};
use crate::topology::{
    assign_outcome, assignment_at, bootstrap_error_text, config_roles_view, config_total_fits, resolve_outcome,
    total_ranks, BootstrapError, BootstrapFault, PlanKind, RoleAssignment, RoleAssignmentView,
    RoleSpecView, RoleTopology, RoleTopologyFault, TopologyConfig, TopologyPlan,
};
use vstd::prelude::*;

verus! {

// ─── The color-split lifecycle ──────────────────────────────────────────────

/// Error returned when a color split would violate the MPI bootstrap
/// lifecycle.
#[derive(Debug, Clone, Copy, PartialEq, Eq, Structural)]
pub enum InitAppColorError {
    /// Raw `MPI_COMM_WORLD` was already handed out, so a later color split
    /// would disagree with the communicator the app already holds.
    CommunicatorAlreadyFixed {
        /// The requested MPMD color.
        requested: i32,
    },
    /// The process was already split with another color.
    DifferentColor {
        /// The color already used to split `MPI_COMM_WORLD`.
        existing: i32,
        /// The newly requested color.
        requested: i32,
    },
}

/// The text of a color-split lifecycle error.
pub open spec fn init_color_text(e: InitAppColorError) -> Seq<char> {
    match e {
        InitAppColorError::CommunicatorAlreadyFixed { requested } => "init_app_color("@
            + signed_decimal(requested as int)
            + ") must run before get_mpi_world(); raw MPI_COMM_WORLD has already been handed out"@,
        InitAppColorError::DifferentColor { existing, requested } => "init_app_color("@
            + signed_decimal(requested as int) + ") conflicts with the existing app color "@
            + signed_decimal(existing as int)
            + "; repeated calls are only idempotent for the same color"@,
    }
}

impl InitAppColorError {
    /// The diagnostic text of this error.
    pub fn message(&self) -> (s: String)
        ensures
            s@ == init_color_text(*self),
    {
        match self {
            InitAppColorError::CommunicatorAlreadyFixed { requested } => {
                let s = join(owned("init_app_color("), render_i32(*requested).as_str());
                join(
                    s,
                    ") must run before get_mpi_world(); raw MPI_COMM_WORLD has already been handed out",
                )
            },
            InitAppColorError::DifferentColor { existing, requested } => {
                let s = join(owned("init_app_color("), render_i32(*requested).as_str());
                let s = join(s, ") conflicts with the existing app color ");
                let s = join(s, render_i32(*existing).as_str());
                join(s, "; repeated calls are only idempotent for the same color")
            },
        }
    }
}

/// What the caller must do to MPI after a color request is accepted.
#[derive(Debug, Clone, Copy, PartialEq, Eq, Structural)]
pub enum SplitAction {
    /// Nothing: the world was already split with this color, or no split is
    /// needed.
    Nothing,
    /// Split raw `MPI_COMM_WORLD` by `color` now, keyed by world rank.
    SplitWorld {
        /// The MPMD color of this binary.
        color: i32,
    },
}

/// Which communicator this app's code should be handed.
#[derive(Debug, Clone, Copy, PartialEq, Eq, Structural)]
pub enum WorldChoice {
    /// A duplicate of the intra-communicator split off with `color`.
    Intra {
        /// The color of the split.
        color: i32,
    },
    /// Raw `MPI_COMM_WORLD`.
    Raw,
}

/// The process-wide state of the MPI bootstrap: the color the world was split
/// with, if any, and whether raw `MPI_COMM_WORLD` was already handed out.
#[derive(Debug, Clone, Copy, PartialEq, Eq, Structural)]
pub struct MpiLifecycle {
    /// Color of the split intra-communicator, once split.
    pub intra_color: Option<i32>,
    /// Whether raw `MPI_COMM_WORLD` was handed out as the app communicator.
    pub raw_world_fixed: bool,
}

/// The answer to a request for color `color` in lifecycle state `s`: same
/// color again is accepted with nothing to do; another color is rejected; a
/// first color is rejected once raw WORLD was handed out and otherwise
/// splits.
pub open spec fn init_color_outcome(s: MpiLifecycle, color: i32) -> Result<SplitAction, InitAppColorError> {
    match s.intra_color {
        Some(existing) => if existing == color {
            Ok(SplitAction::Nothing)
        } else {
            Err(InitAppColorError::DifferentColor { existing, requested: color })
        },
        None => if s.raw_world_fixed {
            Err(InitAppColorError::CommunicatorAlreadyFixed { requested: color })
        } else {
            Ok(SplitAction::SplitWorld { color })
        },
    }
}

/// The lifecycle state after a request for color `color`.
pub open spec fn after_init_color(s: MpiLifecycle, color: i32) -> MpiLifecycle {
    match init_color_outcome(s, color) {
        Ok(SplitAction::SplitWorld { color }) => MpiLifecycle {
            intra_color: Some(color),
            raw_world_fixed: s.raw_world_fixed,
        },
        _ => s,
    }
}

/// The communicator handed out in state `s`.
pub open spec fn world_choice_of(s: MpiLifecycle) -> WorldChoice {
    match s.intra_color {
        Some(color) => WorldChoice::Intra { color },
        None => WorldChoice::Raw,
    }
}

/// The lifecycle state after the app communicator was handed out.
pub open spec fn after_world_choice(s: MpiLifecycle) -> MpiLifecycle {
    match s.intra_color {
        Some(_) => s,
        None => MpiLifecycle { intra_color: None, raw_world_fixed: true },
    }
}

/// The state of a process that has not touched MPI.
pub open spec fn fresh_lifecycle() -> MpiLifecycle {
    MpiLifecycle { intra_color: None, raw_world_fixed: false }
}

impl Default for MpiLifecycle {
    fn default() -> (s: Self)
        ensures
            s == fresh_lifecycle(),
    {
        MpiLifecycle { intra_color: None, raw_world_fixed: false }
    }
}

impl MpiLifecycle {
    /// The state of a process that has not touched MPI.
    pub fn new() -> (s: Self)
        ensures
            s == fresh_lifecycle(),
    {
        MpiLifecycle { intra_color: None, raw_world_fixed: false }
    }

    /// Request the MPMD color split `color`. Idempotent for the same color;
    /// rejects a different color, and rejects a first split once raw
    /// `MPI_COMM_WORLD` was handed out.
    pub fn try_init_app_color(&mut self, color: i32) -> (r: Result<SplitAction, InitAppColorError>)
        ensures
            r == init_color_outcome(*old(self), color),
            *final(self) == after_init_color(*old(self), color),
    {
        match self.intra_color {
            Some(existing) => {
                if existing == color {
                    Ok(SplitAction::Nothing)
                } else {
                    Err(InitAppColorError::DifferentColor { existing, requested: color })
                }
            },
            None => {
                if self.raw_world_fixed {
                    Err(InitAppColorError::CommunicatorAlreadyFixed { requested: color })
                } else {
                    self.intra_color = Some(color);
                    Ok(SplitAction::SplitWorld { color })
                }
            },
        }
    }

    /// The communicator the app should be handed: the intra-communicator of
    /// the split, if one was made, else raw `MPI_COMM_WORLD`, which from then
    /// on can no longer be split.
    pub fn get_mpi_world(&mut self) -> (w: WorldChoice)
        ensures
            w == world_choice_of(*old(self)),
            *final(self) == after_world_choice(*old(self)),
    {
        match self.intra_color {
            Some(color) => WorldChoice::Intra { color },
            None => {
                self.raw_world_fixed = true;
                WorldChoice::Raw
            },
        }
    }

    /// Forget the split and the handed-out communicator: MPI was finalized.
    pub fn finalize_mpi(&mut self)
        ensures
            *final(self) == fresh_lifecycle(),
    {
        self.intra_color = None;
        self.raw_world_fixed = false;
    }
}

/// Requesting the same color twice is idempotent: the second request is
/// accepted with nothing to do and leaves the state as the first left it.
pub proof fn law_same_color_is_idempotent(s: MpiLifecycle, color: i32)
    requires
        init_color_outcome(s, color) is Ok,
    ensures
        init_color_outcome(after_init_color(s, color), color) == Ok::<
            SplitAction,
            InitAppColorError,
        >(SplitAction::Nothing),
        after_init_color(after_init_color(s, color), color) == after_init_color(s, color),
{
}

/// Once a color was accepted, any other color is rejected, naming both.
pub proof fn law_different_color_is_rejected(s: MpiLifecycle, color: i32, other: i32)
    requires
        init_color_outcome(s, color) is Ok,
        other != color,
    ensures
        init_color_outcome(after_init_color(s, color), other) == Err::<
            SplitAction,
            InitAppColorError,
        >(InitAppColorError::DifferentColor { existing: color, requested: other }),
{
}

/// Once raw `MPI_COMM_WORLD` was handed out without a split, every color
/// request is rejected.
pub proof fn law_raw_world_blocks_split(s: MpiLifecycle, color: i32)
    requires
        s.intra_color is None,
    ensures
        world_choice_of(s) == WorldChoice::Raw,
        init_color_outcome(after_world_choice(s), color) == Err::<
            SplitAction,
            InitAppColorError,
        >(InitAppColorError::CommunicatorAlreadyFixed { requested: color }),
{
}

/// After a split, the app communicator is the split one, whenever asked.
pub proof fn law_split_world_is_handed_out(s: MpiLifecycle, color: i32)
    requires
        init_color_outcome(s, color) is Ok,
    ensures
        world_choice_of(after_init_color(s, color)) == (WorldChoice::Intra { color }),
        after_world_choice(after_init_color(s, color)) == after_init_color(s, color),
{
}

/// A fresh process, or one whose MPI was finalized, splits on its first color.
pub proof fn law_fresh_lifecycle_splits(color: i32)
    ensures
        init_color_outcome(fresh_lifecycle(), color) == Ok::<SplitAction, InitAppColorError>(
            SplitAction::SplitWorld { color },
        ),
{
}

// ─── The role runtime ───────────────────────────────────────────────────────

/// Failure to validate or initialize the process-level MPI role runtime.
#[derive(Debug)]
pub enum MpiRuntimeError {
    /// Declarative bootstrap resolution or role validation failure.
    Bootstrap(BootstrapError),
    /// MPI communicator split lifecycle violation.
    Init(InitAppColorError),
}

/// Mathematical model of an [`MpiRuntimeError`].
pub enum MpiRuntimeFault {
    Bootstrap(BootstrapFault),
    Init(InitAppColorError),
}

impl View for MpiRuntimeError {
    type V = MpiRuntimeFault;

    open spec fn view(&self) -> MpiRuntimeFault {
        match self {
            MpiRuntimeError::Bootstrap(e) => MpiRuntimeFault::Bootstrap(e@),
            MpiRuntimeError::Init(e) => MpiRuntimeFault::Init(*e),
        }
    }
}

/// The text of a runtime error: that of the error it wraps.
pub open spec fn runtime_error_text(e: MpiRuntimeFault) -> Seq<char> {
    match e {
        MpiRuntimeFault::Bootstrap(b) => bootstrap_error_text(b),
        MpiRuntimeFault::Init(i) => init_color_text(i),
    }
}

impl MpiRuntimeError {
    /// The diagnostic text of this error.
    pub fn message(&self) -> (s: String)
        ensures
            s@ == runtime_error_text(self@),
    {
        match self {
            MpiRuntimeError::Bootstrap(e) => e.message(),
            MpiRuntimeError::Init(e) => e.message(),
        }
    }
}

/// Mathematical model of an [`MpiRuntime`].
pub struct MpiRuntimeView {
    pub topology: Seq<RoleSpecView>,
    pub assignment: RoleAssignmentView,
}

/// Process-owned role bootstrap for a single-binary split MPI run: the
/// validated topology and this process's role in it.
pub struct MpiRuntime {
    topology: RoleTopology,
    assignment: RoleAssignment,
}

impl View for MpiRuntime {
    type V = MpiRuntimeView;

    closed spec fn view(&self) -> MpiRuntimeView {
        MpiRuntimeView { topology: self.topology@, assignment: self.assignment@ }
    }
}

/// The outcome of initializing the role runtime of raw-world rank
/// `world_rank` in lifecycle state `s`: the rank's role assignment must
/// succeed, then its color is requested from the lifecycle.
pub open spec fn initialize_outcome(
    roles: Seq<RoleSpecView>,
    world_rank: i32,
    world_size: i32,
    s: MpiLifecycle,
) -> Result<(RoleAssignmentView, SplitAction), MpiRuntimeFault> {
    match assign_outcome(roles, world_rank, world_size) {
        Err(f) => Err(MpiRuntimeFault::Bootstrap(BootstrapFault::Topology(f))),
        Ok(a) => match init_color_outcome(s, a.color) {
            Ok(act) => Ok((a, act)),
            Err(e) => Err(MpiRuntimeFault::Init(e)),
        },
    }
}

/// The lifecycle state after initializing the role runtime.
pub open spec fn after_initialize(
    roles: Seq<RoleSpecView>,
    world_rank: i32,
    world_size: i32,
    s: MpiLifecycle,
) -> MpiLifecycle {
    match assign_outcome(roles, world_rank, world_size) {
        Err(_) => s,
        Ok(a) => after_init_color(s, a.color),
    }
}

impl MpiRuntime {
    #[verifier::type_invariant]
    spec fn inv(&self) -> bool {
        let a = self.assignment@;
        &&& total_ranks(self.topology@) <= i32::MAX
        &&& 0 <= a.color < self.topology@.len()
        &&& a == assignment_at(self.topology@, a.color as int, a.world_rank, a.world_size)
    }

    /// Resolve this process's role (raw-world rank `world_rank` of
    /// `world_size`) and request its color split from `lifecycle`. The
    /// returned action is the split the caller must perform.
    pub fn initialize(
        topology: RoleTopology,
        world_rank: i32,
        world_size: i32,
        lifecycle: &mut MpiLifecycle,
    ) -> (r: Result<(MpiRuntime, SplitAction), MpiRuntimeError>)
        requires
            total_ranks(topology@) <= i32::MAX,
        ensures
            match r {
                Ok((rt, act)) => {
                    &&& rt@.topology == topology@
                    &&& initialize_outcome(topology@, world_rank, world_size, *old(lifecycle))
                        == Ok::<(RoleAssignmentView, SplitAction), MpiRuntimeFault>(
                        (rt@.assignment, act),
                    )
                },
                Err(e) => initialize_outcome(topology@, world_rank, world_size, *old(lifecycle))
                    == Err::<(RoleAssignmentView, SplitAction), MpiRuntimeFault>(e@),
            },
            *final(lifecycle) == after_initialize(topology@, world_rank, world_size, *old(lifecycle)),
    {
        let assignment = match topology.assign(world_rank, world_size) {
            Ok(a) => a,
            Err(e) => return Err(MpiRuntimeError::Bootstrap(BootstrapError::Topology(e))),
        };
        match lifecycle.try_init_app_color(assignment.color()) {
            Ok(act) => Ok((MpiRuntime { topology, assignment }, act)),
            Err(e) => Err(MpiRuntimeError::Init(e)),
        }
    }

    /// Complete configured topology.
    pub fn topology(&self) -> (t: &RoleTopology)
        ensures
            t@ == self@.topology,
            total_ranks(t@) <= i32::MAX,
    {
        proof {
            use_type_invariant(self);
        }
        &self.topology
    }

    /// Finalize MPI once everything that used the role's communicator is
    /// gone: consumes the runtime and forgets the process's split.
    pub fn finalize(self, lifecycle: &mut MpiLifecycle)
        ensures
            *final(lifecycle) == fresh_lifecycle(),
    {
        lifecycle.finalize_mpi();
    }

    /// This process's role assignment: one of the topology's roles.
    pub fn assignment(&self) -> (a: &RoleAssignment)
        ensures
            a@ == self@.assignment,
            0 <= a@.color < self@.topology.len(),
            a@ == assignment_at(self@.topology, a@.color as int, a@.world_rank, a@.world_size),
    {
        proof {
            use_type_invariant(self);
        }
        &self.assignment
    }
}

/// The composition a single-binary launch resolved to from its declarative
/// configuration.
pub enum Bootstrap {
    /// Compose every role locally over an in-memory transport.
    Local {
        /// The validated role layout.
        topology: RoleTopology,
    },
    /// Raw `MPI_COMM_WORLD` is split and this process owns exactly one role.
    Split {
        /// The role runtime of this process.
        runtime: MpiRuntime,
    },
}

/// Why a launch of `world_size` ranks, with configuration `mode`/`roles`,
/// fails to bootstrap at raw-world rank `world_rank` in lifecycle state `s`,
/// if it does: the configuration must resolve; a split launch additionally
/// needs every rank to have parsed the same configuration (`uniform`), then
/// its role runtime must initialize.
pub open spec fn bootstrap_fault(
    mode: crate::topology::TopologyMode,
    roles: Seq<RoleSpecView>,
    uniform: bool,
    world_rank: i32,
    world_size: i32,
    s: MpiLifecycle,
) -> Option<MpiRuntimeFault> {
    match resolve_outcome(mode, roles, world_size) {
        Err(f) => Some(MpiRuntimeFault::Bootstrap(f)),
        Ok(PlanKind::Local) => None,
        Ok(PlanKind::Split) => if !uniform {
            Some(MpiRuntimeFault::Bootstrap(BootstrapFault::ConfigMismatch))
        } else {
            match initialize_outcome(roles, world_rank, world_size, s) {
                Err(e) => Some(e),
                Ok(_) => None,
            }
        },
    }
}

impl MpiRuntime {
    /// Resolve `config` against the launched raw-world size and return the
    /// composition this process performs, with the split the caller must
    /// make. `digests_uniform` is whether every rank parsed the same
    /// configuration (the cross-rank digest check, a collective the caller
    /// runs for a split launch); a split launch whose ranks disagree is
    /// rejected before any split.
    pub fn bootstrap(
        config: &TopologyConfig,
        digests_uniform: bool,
        world_rank: i32,
        world_size: i32,
        lifecycle: &mut MpiLifecycle,
    ) -> (r: Result<(Bootstrap, SplitAction), MpiRuntimeError>)
        requires
            config_total_fits(config_roles_view(config.roles@)),
        ensures
            ({
                let roles = config_roles_view(config.roles@);
                let fault = bootstrap_fault(
                    config.mode,
                    roles,
                    digests_uniform,
                    world_rank,
                    world_size,
                    *old(lifecycle),
                );
                &&& r is Err <==> fault is Some
                &&& r matches Err(e) ==> fault == Some(e@)
                &&& r matches Ok((Bootstrap::Local { topology }, act)) ==> {
                    &&& resolve_outcome(config.mode, roles, world_size) == Ok::<
                        PlanKind,
                        BootstrapFault,
                    >(PlanKind::Local)
                    &&& topology@ == roles
                    &&& act == SplitAction::Nothing
                }
                &&& r matches Ok((Bootstrap::Split { runtime }, act)) ==> {
                    &&& resolve_outcome(config.mode, roles, world_size) == Ok::<
                        PlanKind,
                        BootstrapFault,
                    >(PlanKind::Split)
                    &&& runtime@.topology == roles
                    &&& initialize_outcome(roles, world_rank, world_size, *old(lifecycle)) == Ok::<
                        (RoleAssignmentView, SplitAction),
                        MpiRuntimeFault,
                    >((runtime@.assignment, act))
                }
                &&& *final(lifecycle) == if resolve_outcome(config.mode, roles, world_size) == Ok::<
                    PlanKind,
                    BootstrapFault,
                >(PlanKind::Split) && digests_uniform {
                    after_initialize(roles, world_rank, world_size, *old(lifecycle))
                } else {
                    *old(lifecycle)
                }
            }),
    {
        match config.resolve(world_size) {
            Err(e) => Err(MpiRuntimeError::Bootstrap(e)),
            Ok(TopologyPlan::Local(topology)) => Ok((Bootstrap::Local { topology }, SplitAction::Nothing)),
            Ok(TopologyPlan::Split(topology)) => {
                if !digests_uniform {
                    return Err(MpiRuntimeError::Bootstrap(BootstrapError::ConfigMismatch));
                }
                proof {
                    crate::topology::law_split_plan_covers_world(
                        config.mode,
                        config_roles_view(config.roles@),
                        world_size,
                    );
                }
                match MpiRuntime::initialize(topology, world_rank, world_size, lifecycle) {
                    Ok((runtime, act)) => Ok((Bootstrap::Split { runtime }, act)),
                    Err(e) => Err(e),
                }
            },
        }
    }
}

/// A split launch whose ranks parsed different configurations is rejected
/// as a configuration mismatch, whatever the rank and the lifecycle state,
/// and no split is requested.
pub proof fn law_disagreeing_ranks_fail_closed(
    mode: crate::topology::TopologyMode,
    roles: Seq<RoleSpecView>,
    world_rank: i32,
    world_size: i32,
    s: MpiLifecycle,
)
    requires
        resolve_outcome(mode, roles, world_size) == Ok::<PlanKind, BootstrapFault>(PlanKind::Split),
    ensures
        bootstrap_fault(mode, roles, false, world_rank, world_size, s) == Some(
            MpiRuntimeFault::Bootstrap(BootstrapFault::ConfigMismatch),
        ),
{
}

} // verus!
