use grass::plugin::{AppError, MissingCapability, MissingPluginDependency, PluginGroup, PluginGroupBuilder, PluginRegistry};
use std::any::TypeId;

struct PluginA;
struct PluginB;
struct PluginC;
struct PluginD;

fn add_a(reg: &mut PluginRegistry) -> Result<(), AppError> {
    reg.begin_plugin("tests::PluginA", true, TypeId::of::<PluginA>(), &[], &[])?;
    reg.finish_plugin("tests::PluginA", None, &["feature_a"], &[]);
    Ok(())
}

fn add_b(reg: &mut PluginRegistry) -> Result<(), AppError> {
    reg.begin_plugin("tests::PluginB", true, TypeId::of::<PluginB>(), &[TypeId::of::<PluginA>()], &["tests::PluginA"])?;
    reg.finish_plugin("tests::PluginB", None, &[], &["feature_a"]);
    Ok(())
}

#[test]
fn satisfied_dependencies_and_capabilities() {
    let mut reg = PluginRegistry::new();
    add_a(&mut reg).unwrap();
    add_b(&mut reg).unwrap();
    assert!(reg.validate_capability_contracts_result().is_ok());
}

#[test]
fn duplicate_plugin_try_add_returns_error() {
    let mut reg = PluginRegistry::new();
    add_a(&mut reg).unwrap();

    let err = add_a(&mut reg).err().unwrap();

    assert!(matches!(err, AppError::DuplicatePlugin { .. }));
    let msg = err.message();
    assert!(msg.contains("PluginA"));
    assert!(msg.contains("already added"));
}

#[test]
fn missing_dependency_try_add_names_plugin_and_dependency() {
    let mut reg = PluginRegistry::new();

    let err = add_b(&mut reg).err().unwrap();

    match &err {
        AppError::MissingDependencies { plugin_name, missing } => {
            assert!(plugin_name.contains("PluginB"));
            assert_eq!(missing.len(), 1);
            assert!(missing[0].name.as_deref().is_some_and(|name| name.contains("PluginA")));
        }
        other => panic!("expected missing dependency error, got {other:?}"),
    }
    let msg = err.message();
    assert!(msg.contains("PluginB"));
    assert!(msg.contains("PluginA"));
    assert_eq!(msg, "Plugin `tests::PluginB` is missing required dependencies: tests::PluginA");
}

#[test]
fn missing_capability_result_names_required_capability_and_plugin() {
    let mut reg = PluginRegistry::new();
    reg.begin_plugin("tests::PluginC", true, TypeId::of::<PluginC>(), &[], &[]).unwrap();
    reg.finish_plugin("tests::PluginC", None, &[], &["feature_missing"]);
    reg.begin_plugin("tests::PluginD", true, TypeId::of::<PluginD>(), &[], &[]).unwrap();
    reg.finish_plugin("tests::PluginD", None, &[], &["feature_missing_d"]);

    let err = reg.validate_capability_contracts_result().err().unwrap();

    match &err {
        AppError::MissingCapabilities { missing } => {
            assert_eq!(missing.len(), 2);
            assert!(missing.iter().any(|cap| {
                cap.capability == "feature_missing" && cap.requiring_plugin.contains("PluginC")
            }));
            assert!(missing.iter().any(|cap| {
                cap.capability == "feature_missing_d" && cap.requiring_plugin.contains("PluginD")
            }));
        }
        other => panic!("expected missing capability error, got {other:?}"),
    }
    let msg = err.message();
    assert!(msg.contains("feature_missing"));
    assert!(msg.contains("PluginC"));
    assert!(msg.contains("provide"));
}

#[test]
fn capability_requirements_are_checked_after_all_plugins_registered() {
    let mut reg = PluginRegistry::new();
    reg.begin_plugin("needs", true, TypeId::of::<PluginC>(), &[], &[]).unwrap();
    reg.finish_plugin("needs", Some("[needs]\n"), &[], &["late"]);
    assert!(reg.validate_capability_contracts_result().is_err());
    reg.begin_plugin("gives", true, TypeId::of::<PluginD>(), &[], &[]).unwrap();
    reg.finish_plugin("gives", Some("[gives]\n"), &["late"], &[]);
    assert!(reg.validate_capability_contracts_result().is_ok());
    assert_eq!(reg.config_snippets().snippets, vec!["[needs]\n".to_string(), "[gives]\n".to_string()]);
}

#[test]
fn non_unique_plugins_may_register_twice_and_failures_change_nothing() {
    let mut reg = PluginRegistry::new();
    reg.begin_plugin("multi", false, TypeId::of::<PluginA>(), &[], &[]).unwrap();
    reg.begin_plugin("multi", false, TypeId::of::<PluginA>(), &[], &[]).unwrap();
    let err = reg
        .begin_plugin("dep", true, TypeId::of::<PluginB>(), &[TypeId::of::<PluginC>(), TypeId::of::<PluginA>()], &[])
        .unwrap_err();
    match err {
        AppError::MissingDependencies { missing, .. } => {
            assert_eq!(missing.len(), 1);
            assert_eq!(missing[0].type_id, TypeId::of::<PluginC>());
            assert_eq!(missing[0].name, None);
        }
        other => panic!("unexpected {other:?}"),
    }
    reg.begin_plugin("dep", true, TypeId::of::<PluginB>(), &[TypeId::of::<PluginA>()], &[]).unwrap();
}

#[test]
fn app_error_texts() {
    assert_eq!(
        AppError::DuplicatePlugin { plugin_name: "P".into() }.message(),
        "Error adding plugin P: plugin was already added in application"
    );
    let missing = vec![
        MissingCapability { capability: "a".into(), requiring_plugin: "X".into() },
        MissingCapability { capability: "b".into(), requiring_plugin: "Y".into() },
    ];
    assert_eq!(missing[0].message(), "capability `a` required by `X`");
    assert_eq!(
        AppError::MissingCapabilities { missing }.message(),
        "Missing capability contracts: capability `a` required by `X`, capability `b` required by `Y`. Add plugin(s) that provide the required capabilities."
    );
}

#[test]
fn app_error_panic_texts() {
    assert_eq!(
        AppError::DuplicatePlugin { plugin_name: "P".into() }.panic_message(),
        "Error adding plugin P: plugin was already added in application"
    );
    let deps = vec![
        MissingPluginDependency { type_id: TypeId::of::<PluginA>(), name: Some("A".into()) },
        MissingPluginDependency { type_id: TypeId::of::<PluginB>(), name: Some("B".into()) },
    ];
    assert_eq!(
        AppError::MissingDependencies { plugin_name: "C".into(), missing: deps }.panic_message(),
        "Missing plugin dependencies for `C`: A, B"
    );
    let missing = vec![MissingCapability { capability: "a".into(), requiring_plugin: "X".into() }];
    assert_eq!(
        AppError::MissingCapabilities { missing }.panic_message(),
        "Missing capabilities: capability `a` required by `X`"
    );
}

struct GroupPluginA;
struct GroupPluginB;

#[test]
fn group_keeps_plugins_in_order_of_addition() {
    let group = PluginGroupBuilder::start()
        .add(TypeId::of::<GroupPluginA>(), "a")
        .add(TypeId::of::<GroupPluginB>(), "b")
        .add(TypeId::of::<GroupPluginA>(), "a again");
    assert_eq!(group.into_plugins(), vec!["a", "b", "a again"]);
}

#[test]
fn group_skips_a_disabled_plugin_type() {
    let group = PluginGroupBuilder::start()
        .add(TypeId::of::<GroupPluginA>(), "a before")
        .disable(TypeId::of::<GroupPluginA>())
        .add(TypeId::of::<GroupPluginA>(), "a after")
        .add(TypeId::of::<GroupPluginB>(), "b");
    assert!(group.is_disabled(&TypeId::of::<GroupPluginA>()));
    assert!(!group.is_disabled(&TypeId::of::<GroupPluginB>()));
    assert_eq!(group.into_plugins(), vec!["a before", "b"]);
}

struct DisableThenReaddGroup;

impl PluginGroup<&'static str> for DisableThenReaddGroup {
    fn build(self) -> PluginGroupBuilder<&'static str> {
        PluginGroupBuilder::start()
            .disable(TypeId::of::<GroupPluginA>())
            .add(TypeId::of::<GroupPluginA>(), "a")
            .add(TypeId::of::<GroupPluginB>(), "b")
    }
}

#[test]
fn group_built_by_a_plugin_group_skips_what_it_disabled() {
    assert_eq!(DisableThenReaddGroup.build().into_plugins(), vec!["b"]);
}
