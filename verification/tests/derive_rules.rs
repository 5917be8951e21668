use grass::derive_rules::{
    check_stage_variants, choice_value, default_and_example, config_type_name, parse_rename_rule, plan_field, rename_field,
    FieldAttrs, FieldPlan, RenameRule, StageEnumError, StageVariant,
};

#[test]
fn rename_all_rules_follow_serde() {
    assert_eq!(rename_field("start_step", None).unwrap(), "start_step");
    assert_eq!(rename_field("start_step", Some("camelCase")).unwrap(), "startStep");
    assert_eq!(rename_field("start_step", Some("PascalCase")).unwrap(), "StartStep");
    assert_eq!(rename_field("Fast", Some("lowercase")).unwrap(), "fast");
    assert_eq!(rename_field("Fast", Some("UPPERCASE")).unwrap(), "FAST");
    assert_eq!(rename_field("HostToDevice", Some("snake_case")).unwrap(), "host_to_device");
    assert_eq!(rename_field("HostToDevice", Some("kebab-case")).unwrap(), "host-to-device");
    assert_eq!(rename_field("HostToDevice", Some("SCREAMING_SNAKE_CASE")).unwrap(), "HOST_TO_DEVICE");
    assert_eq!(rename_field("HostToDevice", Some("SCREAMING-KEBAB-CASE")).unwrap(), "HOST-TO-DEVICE");
    assert_eq!(
        rename_field("x", Some("Title Case")).unwrap_err(),
        "unsupported serde(rename_all = \"Title Case\") for ConfigDescription"
    );
    assert_eq!(parse_rename_rule("kebab-case"), Some(RenameRule::KebabCase));
    assert_eq!(parse_rename_rule("kebab_case"), None);
}

#[test]
fn config_types_are_labelled_by_kind() {
    assert_eq!(config_type_name(Some("u64"), "u64"), "integer");
    assert_eq!(config_type_name(Some("isize"), "isize"), "integer");
    assert_eq!(config_type_name(Some("f64"), "f64"), "float");
    assert_eq!(config_type_name(Some("bool"), "bool"), "boolean");
    assert_eq!(config_type_name(Some("String"), "String"), "string");
    assert_eq!(config_type_name(Some("Vec"), "Vec < f64 >"), "array");
    assert_eq!(config_type_name(Some("Option"), "Option < u8 >"), "optional");
    assert_eq!(config_type_name(Some("Mode"), "crate :: Mode"), "Mode");
    assert_eq!(config_type_name(None, "[f64 ; 3]"), "[f64 ; 3]");
}

fn variant(ident: &str, stage: Option<&str>) -> StageVariant {
    StageVariant { ident: ident.into(), stage: stage.map(str::to_string) }
}

#[test]
fn stage_enums_need_one_unique_name_per_variant() {
    assert_eq!(
        check_stage_variants(&vec![variant("Settle", Some("settle")), variant("Flow", Some("flow"))]).unwrap(),
        vec!["settle".to_string(), "flow".to_string()]
    );
    let err = check_stage_variants(&vec![variant("Settle", Some("settle")), variant("Flow", None)]).unwrap_err();
    assert_eq!(err, StageEnumError::MissingStageAttribute { variant: "Flow".into() });
    assert!(err.message().starts_with("StageEnum: variant `Flow` is missing a #[stage(\"name\")] attribute."));
    let err = check_stage_variants(&vec![
        variant("A", Some("x")),
        variant("B", Some("y")),
        variant("C", Some("y")),
        variant("D", Some("x")),
    ])
    .unwrap_err();
    assert_eq!(err, StageEnumError::DuplicateStageName { name: "x".into() });
    assert_eq!(
        err.message(),
        "StageEnum: duplicate stage name \"x\". Each variant must have a unique stage name."
    );
}

fn attrs(has_default: bool, is_option: bool) -> FieldAttrs {
    FieldAttrs { has_default, flatten: false, skip_deserializing: false, rename: None, is_option }
}

fn docs(lines: &[&str]) -> Vec<String> {
    lines.iter().map(|l| l.to_string()).collect()
}

#[test]
fn fields_are_listed_under_their_parser_key() {
    let plan = plan_field("start_step", Some("camelCase"), &attrs(true, false), &docs(&[" First step. ", " Resumes."]))
        .unwrap()
        .unwrap();
    assert_eq!(
        plan,
        FieldPlan { name: "startStep".into(), required: false, description: "First step. Resumes.".into() }
    );
    let mut renamed = attrs(false, false);
    renamed.rename = Some("dt".into());
    let plan = plan_field("time_step", Some("kebab-case"), &renamed, &docs(&[])).unwrap().unwrap();
    assert_eq!(plan, FieldPlan { name: "dt".into(), required: true, description: String::new() });
    let plan = plan_field("name", None, &attrs(false, true), &docs(&["", "  Stage name.\t"])).unwrap().unwrap();
    assert_eq!(plan, FieldPlan { name: "name".into(), required: false, description: " Stage name.".into() });
}

#[test]
fn flattened_and_skipped_fields_are_not_listed() {
    let mut flat = attrs(true, false);
    flat.flatten = true;
    assert_eq!(plan_field("overrides", None, &flat, &docs(&["extra"])), Ok(None));
    let mut skipped = attrs(false, false);
    skipped.skip_deserializing = true;
    assert_eq!(plan_field("cache", None, &skipped, &docs(&[])), Ok(None));
    assert_eq!(
        plan_field("cache", Some("Train-Case"), &skipped, &docs(&[])),
        Err("unsupported serde(rename_all = \"Train-Case\") for ConfigDescription".to_string())
    );
}

#[test]
fn choice_values_follow_renames() {
    assert_eq!(choice_value("Aitken", Some("snake_case"), None).unwrap(), "aitken");
    assert_eq!(choice_value("Aitken", Some("snake_case"), Some("aitken-dynamic")).unwrap(), "aitken-dynamic");
    assert_eq!(choice_value("Fixed", None, None).unwrap(), "Fixed");
    assert!(choice_value("Fixed", Some("bogus"), Some("x")).is_err());
}

#[test]
fn defaults_are_listed_for_optional_fields_only() {
    assert_eq!(default_and_example(false, Some("0"), None), (Some("0".to_string()), Some("0".to_string())));
    assert_eq!(default_and_example(true, Some("0.0"), None), (None, Some("0.0".to_string())));
    assert_eq!(default_and_example(true, None, None), (None, None));
    assert_eq!(
        default_and_example(true, Some("1"), Some("1000")),
        (Some("1000".to_string()), Some("1000".to_string()))
    );
}
