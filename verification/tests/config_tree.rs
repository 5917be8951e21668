use grass::config_tree::{copy_tree, deep_merge, stage_table, subapp_config_path, subapp_table, ConfigTree};

fn t(entries: Vec<(&str, ConfigTree)>) -> ConfigTree {
    ConfigTree::Table(entries.into_iter().map(|(k, v)| (k.to_string(), v)).collect())
}

fn show(tree: &ConfigTree) -> String {
    format!("{:?}", tree)
}

#[test]
fn subapp_config_path_reads_the_subapps_table() {
    let config = t(vec![(
        "subapps",
        t(vec![("dem", t(vec![("config_path", ConfigTree::Str("dem.toml".into()))]))]),
    )]);
    assert_eq!(subapp_config_path(&config, "dem"), Some("dem.toml".to_string()));
    assert_eq!(subapp_config_path(&config, "cfd"), None);
    let not_a_string = t(vec![("subapps", t(vec![("dem", t(vec![("config_path", ConfigTree::Int(3))]))]))]);
    assert_eq!(subapp_config_path(&not_a_string, "dem"), None);
}

#[test]
fn deep_merge_recurses_into_tables_and_overwrites_the_rest() {
    let mut base = t(vec![
        ("a", t(vec![("x", ConfigTree::Int(1)), ("y", ConfigTree::Int(2))])),
        ("b", ConfigTree::Int(3)),
        ("d", t(vec![("k", ConfigTree::Bool(true))])),
    ]);
    let over = t(vec![
        ("a", t(vec![("y", ConfigTree::Int(20)), ("z", ConfigTree::Int(30))])),
        ("c", ConfigTree::Int(4)),
        ("d", ConfigTree::Str("flat".into())),
    ]);
    deep_merge(&mut base, &over);
    let expected = t(vec![
        ("a", t(vec![("x", ConfigTree::Int(1)), ("y", ConfigTree::Int(20)), ("z", ConfigTree::Int(30))])),
        ("b", ConfigTree::Int(3)),
        ("d", ConfigTree::Str("flat".into())),
        ("c", ConfigTree::Int(4)),
    ]);
    assert_eq!(show(&base), show(&expected));
}

#[test]
fn subapp_table_puts_inline_keys_on_top_of_the_file() {
    let config = t(vec![("dem", t(vec![("dt", ConfigTree::FloatBits(0.5f64.to_bits()))]))]);
    let loaded = t(vec![
        ("dt", ConfigTree::FloatBits(1.0f64.to_bits())),
        ("steps", ConfigTree::Int(10)),
    ]);
    let merged = subapp_table(&config, Some(loaded), "dem");
    let expected = t(vec![
        ("dt", ConfigTree::FloatBits(0.5f64.to_bits())),
        ("steps", ConfigTree::Int(10)),
    ]);
    assert_eq!(show(&merged), show(&expected));
    let none = subapp_table(&config, None, "dem");
    assert_eq!(show(&none), show(&t(vec![("dt", ConfigTree::FloatBits(0.5f64.to_bits()))])));
    let absent = subapp_table(&config, None, "cfd");
    assert_eq!(show(&absent), show(&t(vec![])));
}

#[test]
fn stage_table_drops_run_and_applies_the_overrides() {
    let config = t(vec![
        ("run", ConfigTree::Array(vec![t(vec![("steps", ConfigTree::Int(5))])])),
        ("dem", t(vec![("thermo", ConfigTree::Int(100)), ("skin", ConfigTree::Int(1))])),
    ]);
    let overrides = t(vec![("dem", t(vec![("thermo", ConfigTree::Int(10))]))]);
    let merged = stage_table(&config, &overrides);
    let expected = t(vec![("dem", t(vec![("thermo", ConfigTree::Int(10)), ("skin", ConfigTree::Int(1))]))]);
    assert_eq!(show(&merged), show(&expected));
    assert_eq!(show(&copy_tree(&config)), show(&config));
}
