use grass::config_tree::{table_get_ref, ConfigTree};
use grass::config::{check_toml_extension, ConfigChoices, parse_config, try_config_from_str, namespace_generated_table, output_dir_for, plan_input, ConfigError, InputAction};

fn args(v: &[&str]) -> Vec<String> {
    v.iter().map(|s| s.to_string()).collect()
}

#[test]
fn only_toml_paths_are_read() {
    assert!(check_toml_extension("in/case.toml").is_ok());
    assert_eq!(
        check_toml_extension("case.yaml"),
        Err(ConfigError::InvalidFileExtension { path: "case.yaml".into() })
    );
    assert_eq!(
        check_toml_extension("case.yaml").unwrap_err().message(),
        "input file must be a .toml file, got 'case.yaml'"
    );
}

#[test]
fn input_stage_decisions() {
    assert_eq!(plan_input(true, &args(&["app"])), InputAction::KeepSeeded);
    assert_eq!(
        plan_input(false, &args(&["app", "in.toml", "--generate-config"])),
        InputAction::GenerateConfig
    );
    assert_eq!(plan_input(false, &args(&["app"])), InputAction::Usage);
    assert_eq!(
        plan_input(false, &args(&["app", "in.toml"])),
        InputAction::Load { input_file: "in.toml".into() }
    );
}

#[test]
fn output_directory_prefers_configuration_then_input_location() {
    assert_eq!(output_dir_for(Some("out"), "runs/case.toml"), Some("out".to_string()));
    assert_eq!(output_dir_for(None, "runs/case.toml"), Some("runs".to_string()));
    assert_eq!(output_dir_for(None, "case.toml"), None);
}

#[test]
fn config_error_texts() {
    assert_eq!(
        ConfigError::MissingSection { key: "clock".into() }.message(),
        "missing required [clock] section in config file. Add a [clock] section, or run with --generate-config to see the sections this app expects."
    );
    assert_eq!(
        ConfigError::InvalidArray { key: "wall".into(), index: Some(2), message: "bad".into() }.message(),
        "failed to parse [[wall]] entry 2 in config file: bad"
    );
    assert_eq!(
        ConfigError::InvalidArray { key: "wall".into(), index: None, message: "value is not an array".into() }
            .message(),
        "expected [[wall]] to be an array in config file: value is not an array"
    );
    assert_eq!(
        ConfigError::ReadFile { path: "a.toml".into(), message: "nope".into() }.message(),
        "failed to read 'a.toml': nope"
    );
    assert_eq!(
        ConfigError::ParseToml { path: "<string>".into(), message: "x".into() }.message(),
        "failed to parse TOML '<string>': x"
    );
    assert_eq!(
        ConfigError::InvalidSection { key: "k".into(), message: "m".into() }.message(),
        "failed to parse [k] section in config file: m"
    );
    assert!(ConfigError::MissingConfigResource { key: "k".into() }
        .message()
        .starts_with("cannot read required [k] section because no Config resource is installed."));
}

#[test]
fn namespaced_snippet_moves_the_first_table_header() {
    assert_eq!(
        namespace_generated_table("sub", "[dump]\ninterval = 0\n[other]\n".to_string()),
        "[sub.dump]\ninterval = 0\n[other]\n"
    );
}

#[test]
fn namespaced_snippet_moves_an_array_header() {
    assert_eq!(
        namespace_generated_table("sub", "# stages\n[[run]]\nsteps = 1\n".to_string()),
        "# stages\n[[sub.run]]\nsteps = 1\n"
    );
}

#[test]
fn namespaced_snippet_normalises_line_endings() {
    assert_eq!(namespace_generated_table("ns", "[a]\r\nx = 1\r\ny = 2".to_string()), "[ns.a]\nx = 1\ny = 2\n");
    assert_eq!(namespace_generated_table("ns", String::new()), "");
    assert_eq!(namespace_generated_table("ns", "\n\n".to_string()), "\n\n");
}

#[test]
fn namespaced_snippet_trims_repeated_brackets() {
    assert_eq!(namespace_generated_table("ns", "[a]]\n".to_string()), "[ns.a]\n");
    assert_eq!(namespace_generated_table("ns", "[[[[b]]]]\n".to_string()), "[[ns.b]]\n");
    assert_eq!(namespace_generated_table("ns", "a[b\n".to_string()), "a[b\n");
}

#[test]
fn toml_text_parses_into_a_config() {
    let config = try_config_from_str("[run]\nsteps = 5\n").unwrap();
    let run = table_get_ref(&config.tree, "run").unwrap();
    assert_eq!(format!("{:?}", table_get_ref(run, "steps")), "Some(Int(5))");
    assert!(table_get_ref(&config.tree, "steps").is_none());
    match try_config_from_str("steps = ") {
        Err(ConfigError::ParseToml { path, message }) => {
            assert_eq!(path, "<string>");
            assert!(!message.is_empty());
        }
        _ => panic!("expected a parse error"),
    }
    match parse_config("input.toml", "[a\n") {
        Err(ConfigError::ParseToml { path, .. }) => assert_eq!(path, "input.toml"),
        _ => panic!("expected a parse error"),
    }
}

#[test]
fn parsed_document_keeps_every_value() {
    let config = parse_config("case.toml", "title = \"demo\"\n[a]\nx = 1.5\nd = 1979-05-27\nl = [1, true]\n").unwrap();
    let expected = ConfigTree::Table(vec![
        (
            "a".to_string(),
            ConfigTree::Table(vec![
                ("d".to_string(), ConfigTree::Datetime("1979-05-27".to_string())),
                ("l".to_string(), ConfigTree::Array(vec![ConfigTree::Int(1), ConfigTree::Bool(true)])),
                ("x".to_string(), ConfigTree::FloatBits(1.5f64.to_bits())),
            ]),
        ),
        ("title".to_string(), ConfigTree::Str("demo".to_string())),
    ]);
    assert_eq!(format!("{:?}", config.tree), format!("{:?}", expected));
    let empty = try_config_from_str("").unwrap();
    assert_eq!(format!("{:?}", empty.tree), "Table([])");
}

enum Scheme {
    Explicit,
    Implicit,
}

impl ConfigChoices for Scheme {
    fn choices() -> Vec<String> {
        let all = [Scheme::Explicit, Scheme::Implicit];
        all.iter()
            .map(|s| match s {
                Scheme::Explicit => "explicit".to_string(),
                Scheme::Implicit => "implicit".to_string(),
            })
            .collect()
    }
}

#[test]
fn symbolic_choices_of_fields() {
    assert!(<u32 as ConfigChoices>::choices().is_empty());
    assert!(<String as ConfigChoices>::choices().is_empty());
    assert!(<Vec<Scheme> as ConfigChoices>::choices().is_empty());
    assert_eq!(<Scheme as ConfigChoices>::choices(), vec!["explicit", "implicit"]);
    assert_eq!(<Option<Scheme> as ConfigChoices>::choices(), vec!["explicit", "implicit"]);
    assert!(<Option<bool> as ConfigChoices>::choices().is_empty());
}
