//! Declarative process runner for a locally composed or MPI-split solver
//! pair: one input document declares exactly two roles; a single-rank launch
//! runs both in this process, a split launch runs the one role MPI assigned
//! here against its peer.
//!
//! Parsing the document, MPI, threads and the role functions themselves are
//! driven by the caller; this module validates the pair and decides, for a
//! split launch, which role runs here and at which world rank its peer sits.

use crate::bootstrap::MpiRuntime;
use crate::text::{decimal, join, owned, render_i32, render_usize, signed_decimal, str_equal};
use crate::topology::{
    config_roles_view, lemma_role_start_step, role_start, topology_error_text, topology_fault, RoleSpecView,
    TopologyConfig, TopologyMode,
};
use crate::transport::Transport;
use vstd::prelude::*;

verus! {

// ─── RoleLaunch ─────────────────────────────────────────────────────────────

/// Mathematical model of a [`RoleLaunch`].
pub struct RoleLaunchView {
    pub role: Seq<char>,
    pub peer: Seq<char>,
    pub config_source: Seq<char>,
}

/// Everything role code needs once process placement is resolved.
pub struct RoleLaunch {
    role: String,
    peer: String,
    config_source: String,
    transport: Box<dyn Transport>,
}

impl View for RoleLaunch {
    type V = RoleLaunchView;

    closed spec fn view(&self) -> RoleLaunchView {
        RoleLaunchView { role: self.role@, peer: self.peer@, config_source: self.config_source@ }
    }
}

impl RoleLaunch {
    /// Name of the solver role executing on this process.
    pub fn role(&self) -> (s: &str)
        ensures
            s@ == self@.role,
    {
        self.role.as_str()
    }

    /// Name of the role at the other end of the coupling channel.
    pub fn peer(&self) -> (s: &str)
        ensures
            s@ == self@.peer,
    {
        self.peer.as_str()
    }

    /// The complete input document.
    pub fn config_source(&self) -> (s: &str)
        ensures
            s@ == self@.config_source,
    {
        self.config_source.as_str()
    }

    /// Consume the launch and recover its already-selected transport.
    pub fn into_transport(self) -> Box<dyn Transport> {
        self.transport
    }

    /// Split the launch into its input document and transport.
    pub fn into_parts(self) -> (r: (String, Box<dyn Transport>))
        ensures
            r.0@ == self@.config_source,
    {
        (self.config_source, self.transport)
    }
}

// ─── PairRun ────────────────────────────────────────────────────────────────

/// Where the results of a coupled pair came from.
#[derive(Debug)]
pub enum PairRun<T> {
    /// Both roles executed in this process.
    Local {
        /// Result returned by the first declared role.
        first: T,
        /// Result returned by the second declared role.
        second: T,
    },
    /// This MPI process executed its one assigned role.
    Split {
        /// Name of the role assigned to this process.
        role: String,
        /// Result returned by that role.
        result: T,
    },
}

// ─── RunnerError ────────────────────────────────────────────────────────────

#[verifier::external_type_specification]
#[verifier::external_body]
pub struct ExIoError(std::io::Error);

/// `<std::io::Error as ToString>::to_string`: the description of an I/O error.
/// What the operating system reports is not stated.
#[verifier::external_body]
fn io_error_text(e: &std::io::Error) -> String {
    e.to_string()
}

/// Failure before or around execution of a declarative coupled pair.
#[derive(Debug)]
pub enum RunnerError {
    /// A CLI-supplied input file could not be read.
    ReadConfig {
        /// Requested path.
        path: String,
        /// Filesystem error.
        source: std::io::Error,
    },
    /// The input document or topology was invalid.
    Config(String),
    /// A coupled pair requires exactly two declared roles.
    RoleCount(usize),
    /// MPI/topology bootstrap failed.
    Bootstrap(String),
    /// The point-to-point runner cannot map a multi-rank role.
    MultiRankRole {
        /// Role name.
        role: String,
        /// Configured ranks.
        ranks: i32,
    },
    /// Bootstrap returned a role outside the validated pair.
    UnknownRole(String),
    /// A locally composed role panicked.
    RolePanicked {
        /// Failed role name.
        role: String,
    },
}

/// Mathematical model of a [`RunnerError`] (an I/O error is known by its path
/// alone).
pub enum RunnerFault {
    ReadConfig { path: Seq<char> },
    Config(Seq<char>),
    RoleCount(usize),
    Bootstrap(Seq<char>),
    MultiRankRole { role: Seq<char>, ranks: i32 },
    UnknownRole(Seq<char>),
    RolePanicked { role: Seq<char> },
}

impl View for RunnerError {
    type V = RunnerFault;

    open spec fn view(&self) -> RunnerFault {
        match self {
            RunnerError::ReadConfig { path, .. } => RunnerFault::ReadConfig { path: path@ },
            RunnerError::Config(e) => RunnerFault::Config(e@),
            RunnerError::RoleCount(n) => RunnerFault::RoleCount(*n),
            RunnerError::Bootstrap(e) => RunnerFault::Bootstrap(e@),
            RunnerError::MultiRankRole { role, ranks } => RunnerFault::MultiRankRole {
                role: role@,
                ranks: *ranks,
            },
            RunnerError::UnknownRole(r) => RunnerFault::UnknownRole(r@),
            RunnerError::RolePanicked { role } => RunnerFault::RolePanicked { role: role@ },
        }
    }
}

/// The text of a file-read failure whose I/O error reads `detail`.
pub open spec fn read_config_text(path: Seq<char>, detail: Seq<char>) -> Seq<char> {
    "read config `"@ + path + "`: "@ + detail
}

/// The text of a runner error other than a file-read failure.
pub open spec fn runner_error_text(e: RunnerFault) -> Seq<char> {
    match e {
        RunnerFault::ReadConfig { path } => read_config_text(path, Seq::empty()),
        RunnerFault::Config(msg) => "invalid coupled-runner config: "@ + msg,
        RunnerFault::RoleCount(n) => "coupled pair requires exactly two roles, got "@ + decimal(
            n as nat,
        ),
        RunnerFault::Bootstrap(msg) => "bootstrap coupled topology: "@ + msg,
        RunnerFault::MultiRankRole { role, ranks } => "role `"@ + role + "` has "@ + signed_decimal(
            ranks as int,
        ) + " ranks; paired point-to-point coupling currently requires one"@,
        RunnerFault::UnknownRole(role) => "bootstrap selected unknown role `"@ + role + "`"@,
        RunnerFault::RolePanicked { role } => "local role `"@ + role + "` panicked"@,
    }
}

impl RunnerError {
    /// The diagnostic text of this error. For a file-read failure it is the
    /// path followed by the operating system's description of the error,
    /// which is not stated.
    pub fn message(&self) -> (s: String)
        ensures
            self@ matches RunnerFault::ReadConfig { path } ==> {
                let head = read_config_text(path, Seq::empty());
                s@.len() >= head.len() && s@.subrange(0, head.len() as int) == head
            },
            !(self@ is ReadConfig) ==> s@ == runner_error_text(self@),
    {
        match self {
            RunnerError::ReadConfig { path, source } => {
                let s = join(owned("read config `"), path.as_str());
                let s = join(s, "`: ");
                let detail = io_error_text(source);
                let r = join(s, detail.as_str());
                let ghost head = read_config_text(path@, Seq::empty());
                assert(head =~= s@);
                assert(r@.subrange(0, head.len() as int) =~= head);
                r
            },
            RunnerError::Config(e) => join(owned("invalid coupled-runner config: "), e.as_str()),
            RunnerError::RoleCount(n) => {
                join(
                    owned("coupled pair requires exactly two roles, got "),
                    render_usize(*n).as_str(),
                )
            },
            RunnerError::Bootstrap(e) => join(owned("bootstrap coupled topology: "), e.as_str()),
            RunnerError::MultiRankRole { role, ranks } => {
                let s = join(owned("role `"), role.as_str());
                let s = join(s, "` has ");
                let s = join(s, render_i32(*ranks).as_str());
                join(s, " ranks; paired point-to-point coupling currently requires one")
            },
            RunnerError::UnknownRole(role) => {
                join(join(owned("bootstrap selected unknown role `"), role.as_str()), "`")
            },
            RunnerError::RolePanicked { role } => {
                join(join(owned("local role `"), role.as_str()), "` panicked")
            },
        }
    }
}

// ─── CoupledPairRunner ──────────────────────────────────────────────────────

/// Mathematical model of a [`CoupledPairRunner`].
pub struct RunnerView {
    pub source: Seq<char>,
    pub mode: TopologyMode,
    pub roles: Seq<RoleSpecView>,
    pub first: Seq<char>,
    pub second: Seq<char>,
}

/// Process-level runner that turns one input document into either two local
/// solver roles or one MPI-assigned role per process.
pub struct CoupledPairRunner {
    source: String,
    topology: TopologyConfig,
    first: String,
    second: String,
}

impl View for CoupledPairRunner {
    type V = RunnerView;

    closed spec fn view(&self) -> RunnerView {
        RunnerView {
            source: self.source@,
            mode: self.topology.mode,
            roles: config_roles_view(self.topology.roles@),
            first: self.first@,
            second: self.second@,
        }
    }
}

/// Where a split launch runs: the role assigned to this process, its rank
/// and size within that role, its peer role, whether the role is the first
/// declared one, and where the peer role starts in the raw world and how many
/// ranks it has.
pub struct SplitPlacement {
    /// The role running on this process.
    pub role: String,
    /// This process's rank within its role.
    pub role_rank: i32,
    /// Number of ranks of this process's role.
    pub role_size: i32,
    /// The role at the other end of the coupling channel.
    pub peer: String,
    /// Whether this process runs the first declared role.
    pub runs_first: bool,
    /// Raw-world rank at which the peer role starts.
    pub peer_rank: i32,
    /// Number of ranks of the peer role.
    pub peer_size: i32,
}

impl CoupledPairRunner {
    #[verifier::type_invariant]
    spec fn inv(&self) -> bool {
        let roles = config_roles_view(self.topology.roles@);
        &&& topology_fault(roles) is None
        &&& roles.len() == 2
        &&& self.first@ == roles[0].name
        &&& self.second@ == roles[1].name
    }

    /// Validate a parsed input document: its topology must be valid and
    /// declare exactly two roles, taken in declaration order.
    pub fn from_parsed(source: &str, topology: TopologyConfig) -> (r: Result<Self, RunnerError>)
        ensures
            ({
                let roles = config_roles_view(topology.roles@);
                match topology_fault(roles) {
                    Some(f) => r matches Err(e) && e@ == RunnerFault::Config(topology_error_text(f)),
                    None => if roles.len() != 2 {
                        r matches Err(e) && e@ == RunnerFault::RoleCount(roles.len() as usize)
                    } else {
                        r matches Ok(p) && p@ == (RunnerView {
                            source: source@,
                            mode: topology.mode,
                            roles,
                            first: roles[0].name,
                            second: roles[1].name,
                        })
                    },
                }
            }),
    {
        let validated = match topology.topology() {
            Ok(t) => t,
            Err(e) => return Err(RunnerError::Config(e.message())),
        };
        let roles = validated.roles();
        if roles.len() != 2 {
            return Err(RunnerError::RoleCount(roles.len()));
        }
        let first = owned(roles[0].name());
        let second = owned(roles[1].name());
        Ok(CoupledPairRunner { source: owned(source), topology, first, second })
    }

    /// Name of the first declared role.
    pub fn first(&self) -> (s: &str)
        ensures
            s@ == self@.first,
    {
        self.first.as_str()
    }

    /// Name of the second declared role.
    pub fn second(&self) -> (s: &str)
        ensures
            s@ == self@.second,
    {
        self.second.as_str()
    }

    /// The complete input document.
    pub fn source(&self) -> (s: &str)
        ensures
            s@ == self@.source,
    {
        self.source.as_str()
    }

    /// The declared topology.
    pub fn topology(&self) -> (t: &TopologyConfig)
        ensures
            t.mode == self@.mode,
            config_roles_view(t.roles@) == self@.roles,
    {
        &self.topology
    }

    /// The launch handed to role `role`, coupled to `peer` over `transport`.
    pub fn launch(&self, role: &str, peer: &str, transport: Box<dyn Transport>) -> (l: RoleLaunch)
        ensures
            l@ == (RoleLaunchView { role: role@, peer: peer@, config_source: self@.source }),
    {
        RoleLaunch {
            role: owned(role),
            peer: owned(peer),
            config_source: owned(self.source.as_str()),
            transport,
        }
    }

    /// For a split launch resolved from this runner's topology, the role
    /// this process runs, its rank and size within that role, and the peer
    /// role with where it starts and how many ranks it has. Roles of any
    /// size are placed.
    pub fn split_placement(&self, runtime: &MpiRuntime) -> (r: Result<SplitPlacement, RunnerError>)
        requires
            runtime@.topology == self@.roles,
        ensures
            ({
                let a = runtime@.assignment;
                let roles = self@.roles;
                if a.name == self@.first {
                    r matches Ok(p) && p.role@ == a.name && p.role_rank == a.role_rank
                        && p.role_size == a.role_size && p.peer@ == self@.second && p.runs_first
                        && p.peer_rank == role_start(roles, 1) && p.peer_size == roles[1].ranks
                } else {
                    &&& a.name == self@.second
                    &&& r matches Ok(p) && p.role@ == a.name && p.role_rank == a.role_rank
                        && p.role_size == a.role_size && p.peer@ == self@.first && !p.runs_first
                        && p.peer_rank == role_start(roles, 0) && p.peer_size == roles[0].ranks
                }
            }),
    {
        proof {
            use_type_invariant(self);
        }
        let topology = runtime.topology();
        let assignment = runtime.assignment();
        let role = owned(assignment.name());
        let role_rank = assignment.role_rank();
        let role_size = assignment.role_size();
        let runs_first = str_equal(role.as_str(), self.first.as_str());
        let peer = if runs_first {
            owned(self.second.as_str())
        } else if str_equal(role.as_str(), self.second.as_str()) {
            owned(self.first.as_str())
        } else {
            return Err(RunnerError::UnknownRole(role));
        };
        proof {
            let ghost roles = topology@;
            lemma_role_start_step(roles, 0);
            lemma_role_start_step(roles, 1);
            if runs_first {
                assert(roles[1].name == peer@);
            } else {
                assert(roles[0].name == peer@);
            }
        }
        match topology.role_world_range(peer.as_str()) {
            Some(range) => Ok(
                SplitPlacement {
                    role,
                    role_rank,
                    role_size,
                    peer,
                    runs_first,
                    peer_rank: range.start,
                    peer_size: range.end - range.start,
                },
            ),
            None => Err(RunnerError::UnknownRole(peer)),
        }
    }
}

} // verus!
