use grass::bootstrap::{
    Bootstrap, InitAppColorError, MpiLifecycle, MpiRuntime, MpiRuntimeError, SplitAction,
    WorldChoice,
};
use grass::topology::{
    BootstrapError, RoleConfig, RoleSpec, RoleTopology, RoleTopologyError, TopologyConfig,
    TopologyMode,
};

#[test]
fn same_color_is_idempotent() {
    let mut lc = MpiLifecycle::new();
    assert_eq!(lc.try_init_app_color(2), Ok(SplitAction::SplitWorld { color: 2 }));
    assert_eq!(lc.try_init_app_color(2), Ok(SplitAction::Nothing));
    assert_eq!(lc.try_init_app_color(2), Ok(SplitAction::Nothing));
    assert_eq!(lc.get_mpi_world(), WorldChoice::Intra { color: 2 });
    lc.finalize_mpi();
    assert_eq!(lc, MpiLifecycle::default());
}

#[test]
fn different_color_is_rejected() {
    let mut lc = MpiLifecycle::new();
    lc.try_init_app_color(3).unwrap();
    let err = lc.try_init_app_color(4).unwrap_err();
    assert_eq!(err, InitAppColorError::DifferentColor { existing: 3, requested: 4 });
    assert!(err.message().contains("idempotent for the same color"));
    assert_eq!(lc.intra_color, Some(3));
}

#[test]
fn after_get_mpi_world_is_rejected() {
    let mut lc = MpiLifecycle::new();
    assert_eq!(lc.get_mpi_world(), WorldChoice::Raw);
    let err = lc.try_init_app_color(1).unwrap_err();
    assert_eq!(err, InitAppColorError::CommunicatorAlreadyFixed { requested: 1 });
    assert_eq!(
        err.message(),
        "init_app_color(1) must run before get_mpi_world(); raw MPI_COMM_WORLD has already been handed out"
    );
    lc.finalize_mpi();
    assert_eq!(lc.try_init_app_color(1), Ok(SplitAction::SplitWorld { color: 1 }));
}

fn pair(mode: TopologyMode) -> TopologyConfig {
    TopologyConfig {
        mode,
        roles: vec![RoleConfig { name: "a".into(), ranks: 1 }, RoleConfig { name: "b".into(), ranks: 2 }],
    }
}

#[test]
fn split_launch_assigns_the_role_and_asks_for_its_color_split() {
    let mut lc = MpiLifecycle::new();
    let (boot, act) = MpiRuntime::bootstrap(&pair(TopologyMode::Auto), true, 2, 3, &mut lc).unwrap();
    assert_eq!(act, SplitAction::SplitWorld { color: 1 });
    match boot {
        Bootstrap::Split { runtime } => {
            assert_eq!(runtime.assignment().name(), "b");
            assert_eq!(runtime.assignment().role_rank(), 1);
            assert_eq!(runtime.topology().required_world_size(), 3);
        }
        Bootstrap::Local { .. } => panic!("expected a split launch"),
    }
    assert_eq!(lc.intra_color, Some(1));
}

#[test]
fn single_rank_launch_composes_locally_without_a_split() {
    let mut lc = MpiLifecycle::new();
    let (boot, act) = MpiRuntime::bootstrap(&pair(TopologyMode::Auto), false, 0, 1, &mut lc).unwrap();
    assert_eq!(act, SplitAction::Nothing);
    assert!(matches!(boot, Bootstrap::Local { .. }));
    assert_eq!(lc, MpiLifecycle::new());
}

#[test]
fn disagreeing_ranks_are_rejected_before_any_split() {
    let mut lc = MpiLifecycle::new();
    let err = MpiRuntime::bootstrap(&pair(TopologyMode::Split), false, 0, 3, &mut lc).err().unwrap();
    assert!(matches!(err, MpiRuntimeError::Bootstrap(BootstrapError::ConfigMismatch)));
    assert_eq!(lc, MpiLifecycle::new());
    assert_eq!(
        err.message(),
        "ranks parsed different bootstrap configurations; every rank must read an identical topology"
    );
}

#[test]
fn initialize_rejects_a_world_that_does_not_match() {
    let topology = RoleTopology::new(vec![RoleSpec::new("dem", 2)]).unwrap();
    let mut lc = MpiLifecycle::new();
    let err = MpiRuntime::initialize(topology, 0, 3, &mut lc).err().unwrap();
    assert!(matches!(
        err,
        MpiRuntimeError::Bootstrap(BootstrapError::Topology(RoleTopologyError::WorldSizeMismatch {
            configured: 2,
            actual: 3
        }))
    ));
}

#[test]
fn initialize_reports_a_lifecycle_violation() {
    let topology = RoleTopology::new(vec![RoleSpec::new("dem", 1), RoleSpec::new("cfd", 1)]).unwrap();
    let mut lc = MpiLifecycle::new();
    lc.get_mpi_world();
    let err = MpiRuntime::initialize(topology, 1, 2, &mut lc).err().unwrap();
    assert!(matches!(
        err,
        MpiRuntimeError::Init(InitAppColorError::CommunicatorAlreadyFixed { requested: 1 })
    ));
}

#[test]
fn finalizing_the_runtime_forgets_the_split() {
    let mut lc = MpiLifecycle::new();
    let (boot, _) = MpiRuntime::bootstrap(&pair(TopologyMode::Split), true, 0, 3, &mut lc).unwrap();
    assert_eq!(lc.intra_color, Some(0));
    match boot {
        Bootstrap::Split { runtime } => runtime.finalize(&mut lc),
        Bootstrap::Local { .. } => panic!("expected a split launch"),
    }
    assert_eq!(lc.intra_color, None);
    assert!(!lc.raw_world_fixed);
    assert_eq!(lc.try_init_app_color(2), Ok(SplitAction::SplitWorld { color: 2 }));
}
