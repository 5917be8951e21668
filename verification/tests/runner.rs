use grass::bootstrap::{Bootstrap, MpiLifecycle, MpiRuntime};
use grass::runner::{CoupledPairRunner, RunnerError};
use grass::topology::{RoleConfig, TopologyConfig, TopologyMode};
use grass::transport::{LocalTransport, Transport};

fn roles(names: &[(&str, i32)]) -> Vec<RoleConfig> {
    names.iter().map(|(n, r)| RoleConfig { name: n.to_string(), ranks: *r }).collect()
}

const PAIR: &str = r#"
                [topology]
                mode = "auto"
                [[topology.role]]
                name = "fluid"
                ranks = 1
                [[topology.role]]
                name = "material"
                ranks = 1
            "#;

#[test]
fn parses_declared_pair_in_topology_order() {
    let runner = CoupledPairRunner::from_parsed(
        PAIR,
        TopologyConfig { mode: TopologyMode::Auto, roles: roles(&[("fluid", 1), ("material", 1)]) },
    )
    .unwrap();
    assert_eq!(runner.first(), "fluid");
    assert_eq!(runner.second(), "material");
    assert_eq!(runner.source(), PAIR);
}

#[test]
fn rejects_non_pair_topology_before_mpi_bootstrap() {
    let error = CoupledPairRunner::from_parsed(
        "[topology]\n[[topology.role]]\nname = \"only\"\nranks = 1\n",
        TopologyConfig { mode: TopologyMode::Auto, roles: roles(&[("only", 1)]) },
    )
    .err()
    .expect("one role must be rejected");
    assert!(matches!(error, RunnerError::RoleCount(1)));
    assert_eq!(error.message(), "coupled pair requires exactly two roles, got 1");
}

#[test]
fn invalid_roles_are_a_config_error() {
    let error = CoupledPairRunner::from_parsed(
        "",
        TopologyConfig { mode: TopologyMode::Auto, roles: roles(&[("a", 1), ("a", 1)]) },
    )
    .err()
    .unwrap();
    match &error {
        RunnerError::Config(msg) => assert_eq!(msg, "duplicate MPI role name `a`"),
        other => panic!("unexpected {other:?}"),
    }
    assert_eq!(error.message(), "invalid coupled-runner config: duplicate MPI role name `a`");
}

#[test]
fn split_placement_runs_the_assigned_role_against_its_peer() {
    let config = TopologyConfig { mode: TopologyMode::Split, roles: roles(&[("fluid", 1), ("material", 1)]) };
    let runner = CoupledPairRunner::from_parsed("doc", config.clone()).unwrap();
    for (rank, role, peer, first, peer_rank) in
        [(0, "fluid", "material", true, 1), (1, "material", "fluid", false, 0)]
    {
        let mut lc = MpiLifecycle::new();
        let (boot, _) = MpiRuntime::bootstrap(&config, true, rank, 2, &mut lc).unwrap();
        let runtime = match boot {
            Bootstrap::Split { runtime } => runtime,
            Bootstrap::Local { .. } => panic!("expected a split"),
        };
        let placement = runner.split_placement(&runtime).ok().unwrap();
        assert_eq!(placement.role, role);
        assert_eq!(placement.peer, peer);
        assert_eq!(placement.runs_first, first);
        assert_eq!(placement.peer_rank, peer_rank);
    }
}

#[test]
fn unequal_roles_place_every_rank() {
    let config = TopologyConfig { mode: TopologyMode::Split, roles: roles(&[("dem", 3), ("cfd", 2)]) };
    let runner = CoupledPairRunner::from_parsed("doc", config.clone()).unwrap();
    for world_rank in 0..5 {
        let mut lc = MpiLifecycle::new();
        let (boot, _) = MpiRuntime::bootstrap(&config, true, world_rank, 5, &mut lc).unwrap();
        let runtime = match boot {
            Bootstrap::Split { runtime } => runtime,
            Bootstrap::Local { .. } => panic!("expected a split"),
        };
        let p = runner.split_placement(&runtime).ok().unwrap();
        if world_rank < 3 {
            assert_eq!((p.role.as_str(), p.role_rank, p.role_size), ("dem", world_rank, 3));
            assert_eq!((p.peer.as_str(), p.peer_rank, p.peer_size, p.runs_first), ("cfd", 3, 2, true));
        } else {
            assert_eq!((p.role.as_str(), p.role_rank, p.role_size), ("cfd", world_rank - 3, 2));
            assert_eq!((p.peer.as_str(), p.peer_rank, p.peer_size, p.runs_first), ("dem", 0, 3, false));
        }
    }
    let err = RunnerError::MultiRankRole { role: "fluid".into(), ranks: 2 };
    assert_eq!(
        err.message(),
        "role `fluid` has 2 ranks; paired point-to-point coupling currently requires one"
    );
}

#[test]
fn launches_carry_the_document_and_the_transport() {
    let runner = CoupledPairRunner::from_parsed(
        "doc",
        TopologyConfig { mode: TopologyMode::Auto, roles: roles(&[("a", 1), ("b", 1)]) },
    )
    .unwrap();
    let (one, two) = LocalTransport::pair();
    let launch = runner.launch("a", "b", Box::new(one));
    assert_eq!(launch.role(), "a");
    assert_eq!(launch.peer(), "b");
    assert_eq!(launch.config_source(), "doc");
    let (source, transport) = launch.into_parts();
    assert_eq!(source, "doc");
    transport.try_send(&[5]).unwrap();
    assert_eq!(two.try_recv().unwrap(), vec![5]);
}

#[test]
fn runner_error_texts() {
    assert_eq!(RunnerError::Bootstrap("x".into()).message(), "bootstrap coupled topology: x");
    assert_eq!(RunnerError::UnknownRole("z".into()).message(), "bootstrap selected unknown role `z`");
    assert_eq!(RunnerError::RolePanicked { role: "a".into() }.message(), "local role `a` panicked");
    let io = std::io::Error::new(std::io::ErrorKind::NotFound, "gone");
    let msg = RunnerError::ReadConfig { path: "x.toml".into(), source: io }.message();
    assert!(msg.starts_with("read config `x.toml`: "));
}
