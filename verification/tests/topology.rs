use grass::topology::{
    config_digest, BootstrapError, RoleConfig, RoleSpec, RoleTopology, RoleTopologyError,
    TopologyConfig, TopologyMode, TopologyPlan,
};

fn topology() -> RoleTopology {
    RoleTopology::new(vec![RoleSpec::new("dem", 2), RoleSpec::new("cfd", 3)]).unwrap()
}

#[test]
fn contiguous_role_assignment_is_deterministic() {
    let topology = topology();
    assert_eq!(topology.assign(0, 5).unwrap().name(), "dem");
    assert_eq!(topology.assign(1, 5).unwrap().role_rank(), 1);
    let cfd = topology.assign(2, 5).unwrap();
    assert_eq!(cfd.name(), "cfd");
    assert_eq!(cfd.color(), 1);
    assert_eq!(cfd.role_rank(), 0);
    assert_eq!(cfd.role_size(), 3);
    assert_eq!(cfd.world_range(), 2..5);
}

#[test]
fn invalid_topologies_fail_before_mpi_split() {
    assert_eq!(RoleTopology::new(vec![]).unwrap_err(), RoleTopologyError::NoRoles);
    assert_eq!(
        RoleTopology::new(vec![RoleSpec::new("dem", 1), RoleSpec::new("dem", 1)]).unwrap_err(),
        RoleTopologyError::DuplicateName("dem".into())
    );
    assert!(matches!(
        topology().assign(0, 4),
        Err(RoleTopologyError::WorldSizeMismatch { .. })
    ));
}

#[test]
fn role_world_range_resolves_peer_ranks() {
    let topology = topology();
    assert_eq!(topology.role_world_range("dem"), Some(0..2));
    assert_eq!(topology.role_world_range("cfd"), Some(2..5));
    assert_eq!(topology.role_world_range("missing"), None);
}

fn pair_config(mode: TopologyMode) -> TopologyConfig {
    TopologyConfig {
        mode,
        roles: vec![
            RoleConfig { name: "a".into(), ranks: 1 },
            RoleConfig { name: "b".into(), ranks: 1 },
        ],
    }
}

#[test]
fn auto_mode_selects_by_world_size() {
    let config = pair_config(TopologyMode::Auto);
    assert!(matches!(config.resolve(1), Ok(TopologyPlan::Local(_))));
    assert!(matches!(config.resolve(2), Ok(TopologyPlan::Split(_))));
    assert_eq!(
        config.resolve(3),
        Err(BootstrapError::AutoAmbiguous { required: 2, actual: 3 })
    );
}

#[test]
fn explicit_modes_fail_closed_on_mismatch() {
    assert_eq!(
        pair_config(TopologyMode::Local).resolve(2),
        Err(BootstrapError::LocalRequiresSingleRank { world_size: 2 })
    );
    assert_eq!(
        pair_config(TopologyMode::Split).resolve(1),
        Err(BootstrapError::WorldSizeMismatch { configured: 2, actual: 1 })
    );
    assert!(matches!(
        pair_config(TopologyMode::Split).resolve(2),
        Ok(TopologyPlan::Split(_))
    ));
}

#[test]
fn config_digest_is_stable_and_content_sensitive() {
    assert_eq!(config_digest(b"topology"), config_digest(b"topology"));
    assert_ne!(config_digest(b"topology"), config_digest(b"topolog"));
}

#[test]
fn every_rank_of_the_world_has_exactly_one_role() {
    let topology = topology();
    let mut owners = Vec::new();
    for rank in 0..5 {
        let a = topology.assign(rank, 5).unwrap();
        assert!(a.world_range().contains(&rank));
        assert_eq!(a.world_rank(), rank);
        assert_eq!(a.world_size(), 5);
        owners.push(a.color());
    }
    assert_eq!(owners, vec![0, 0, 1, 1, 1]);
    assert_eq!(
        topology.assign(5, 5),
        Err(RoleTopologyError::WorldRankOutOfRange { rank: 5, size: 5 })
    );
    assert_eq!(
        topology.assign(-1, 5),
        Err(RoleTopologyError::WorldRankOutOfRange { rank: -1, size: 5 })
    );
}

#[test]
fn role_validation_rejects_blank_names_and_empty_roles() {
    assert_eq!(
        RoleTopology::new(vec![RoleSpec::new("  ", 1)]).unwrap_err(),
        RoleTopologyError::EmptyName
    );
    assert_eq!(
        RoleTopology::new(vec![RoleSpec::new("dem", 0)]).unwrap_err(),
        RoleTopologyError::NonPositiveRankCount { role: "dem".into(), ranks: 0 }
    );
    assert_eq!(topology().required_world_size(), 5);
    assert_eq!(topology().roles().len(), 2);
    assert_eq!(topology().roles()[1].name(), "cfd");
    assert_eq!(topology().roles()[1].ranks(), 3);
}

#[test]
fn topology_errors_explain_themselves() {
    assert_eq!(
        RoleTopologyError::NoRoles.message(),
        "MPI role topology must contain at least one role"
    );
    assert_eq!(
        RoleTopologyError::DuplicateName("dem".into()).message(),
        "duplicate MPI role name `dem`"
    );
    assert_eq!(
        RoleTopologyError::NonPositiveRankCount { role: "cfd".into(), ranks: -2 }.message(),
        "MPI role `cfd` must have at least one rank, got -2"
    );
    assert_eq!(
        RoleTopologyError::WorldSizeMismatch { configured: 5, actual: 4 }.message(),
        "MPI role topology requests 5 ranks but MPI_COMM_WORLD has 4"
    );
    assert_eq!(
        RoleTopologyError::WorldRankOutOfRange { rank: 7, size: 5 }.message(),
        "raw MPI world rank 7 is outside 0..5"
    );
}

#[test]
fn bootstrap_errors_explain_themselves() {
    assert_eq!(
        BootstrapError::LocalRequiresSingleRank { world_size: 2 }.message(),
        "topology mode `local` requires a single rank, but the launch has 2"
    );
    assert_eq!(
        BootstrapError::WorldSizeMismatch { configured: 2, actual: 1 }.message(),
        "topology mode `split` requests 2 ranks but MPI_COMM_WORLD has 1"
    );
    assert_eq!(
        BootstrapError::AutoAmbiguous { required: 2, actual: 3 }.message(),
        "topology mode `auto` cannot resolve world size 3: expected 1 (local) or 2 (split)"
    );
    assert_eq!(
        BootstrapError::ConfigMismatch.message(),
        "ranks parsed different bootstrap configurations; every rank must read an identical topology"
    );
    assert_eq!(
        BootstrapError::Topology(RoleTopologyError::EmptyName).message(),
        "MPI role names must not be empty"
    );
}

#[test]
fn invalid_roles_are_rejected_before_the_mode_is_considered() {
    let config = TopologyConfig {
        mode: TopologyMode::Local,
        roles: vec![RoleConfig { name: "a".into(), ranks: 1 }, RoleConfig { name: "a".into(), ranks: 1 }],
    };
    assert_eq!(
        config.resolve(1),
        Err(BootstrapError::Topology(RoleTopologyError::DuplicateName("a".into())))
    );
    assert_eq!(TopologyConfig::default().mode, TopologyMode::Auto);
    assert_eq!(TopologyMode::default(), TopologyMode::Auto);
}
