use grass::plugin::StageNames;
use grass::run::{
    first_stage_only_warnings, run_read_input, try_validate_stages, update_cycle, CycleDecision,
    FirstStageOnlyConfigs, RunState, StageValidationError,
};

fn names(v: &[Option<&str>]) -> Vec<Option<String>> {
    v.iter().map(|n| n.map(str::to_string)).collect()
}

fn expected_stages() -> StageNames {
    StageNames(&["settle", "flow"])
}

#[test]
fn stage_validation_reports_stage_count_mismatch() {
    let err = try_validate_stages(&names(&[Some("settle")]), &expected_stages()).unwrap_err();
    assert_eq!(
        err,
        StageValidationError::StageCountMismatch {
            toml_count: 1,
            enum_count: 2,
            expected_names: vec!["settle".to_string(), "flow".to_string()],
            toml_names: vec![Some("settle".to_string())],
        }
    );
    assert!(err.message().contains("stage count mismatch"));
    assert!(err.message().contains("StageEnum has 2 variants"));
}

#[test]
fn stage_validation_reports_wrong_stage_name() {
    let err = try_validate_stages(&names(&[Some("settle"), Some("production")]), &expected_stages())
        .unwrap_err();
    assert_eq!(
        err,
        StageValidationError::StageNameMismatch {
            index: 1,
            expected: "flow".to_string(),
            actual: "production".to_string(),
        }
    );
    assert!(err.message().contains("stage 1 name mismatch"));
    assert!(err.message().contains("StageEnum expects \"flow\""));
}

#[test]
fn stage_validation_reports_missing_stage_name() {
    let err = try_validate_stages(&names(&[Some("settle"), None]), &expected_stages()).unwrap_err();
    assert_eq!(
        err,
        StageValidationError::MissingStageName { index: 1, expected: "flow".to_string() }
    );
    assert!(err.message().contains("stage 1 is missing a name"));
    assert!(err.message().contains("Expected name: \"flow\""));
}

#[test]
fn stage_validation_accepts_valid_multistage_run() {
    assert!(try_validate_stages(&names(&[Some("settle"), Some("flow")]), &expected_stages()).is_ok());
}

#[test]
fn count_mismatch_text_lists_both_sides() {
    let err = try_validate_stages(&names(&[Some("settle"), None, Some("x")]), &expected_stages())
        .unwrap_err();
    assert_eq!(
        err.message(),
        "stage count mismatch: 3 [[run]] stages in TOML, but StageEnum has 2 variants. \
         Expected stage names: [\"settle\", \"flow\"]. TOML stage names: [Some(\"settle\"), None, Some(\"x\")]."
    );
}

#[test]
fn a_stage_runs_exactly_its_steps() {
    let mut state = RunState::new();
    assert_eq!(
        run_read_input(&mut state, 0, 2, Some("settle"), false, 3),
        Some("Run stage 0 [settle]: 3 steps".to_string())
    );
    let stay = CycleDecision { advance: false, end: false };
    assert_eq!(update_cycle(&mut state, 0, false, 2), stay);
    assert_eq!(update_cycle(&mut state, 0, false, 2), stay);
    assert_eq!(update_cycle(&mut state, 0, false, 2), CycleDecision { advance: true, end: false });
    assert_eq!(state.cycle_count, vec![3]);
    assert_eq!(state.total_cycle, 3);

    assert_eq!(
        run_read_input(&mut state, 1, 2, None, false, 5),
        Some("Run stage 1 [(unnamed)]: 5 steps".to_string())
    );
    assert_eq!(update_cycle(&mut state, 1, true, 2), CycleDecision { advance: true, end: true });
    assert_eq!(state.cycle_count, vec![3, 1]);
    assert_eq!(state.cycle_remaining, vec![3, 5]);
    assert_eq!(state.total_cycle, 4);
}

#[test]
fn a_skipped_stage_advances_without_counting() {
    let mut state = RunState::default();
    assert_eq!(
        run_read_input(&mut state, 0, 1, Some("warm"), true, 100),
        Some("Skipping stage 0 [warm]".to_string())
    );
    assert_eq!(state.cycle_remaining, vec![0]);
    assert_eq!(update_cycle(&mut state, 0, false, 1), CycleDecision { advance: true, end: true });
    assert_eq!(state.total_cycle, 0);
    assert_eq!(state.cycle_count, vec![0]);
}

#[test]
fn single_stage_banner_and_past_the_end() {
    let mut state = RunState::new();
    assert_eq!(run_read_input(&mut state, 0, 1, None, false, 1000), Some("Run: 1000 steps".to_string()));
    assert_eq!(run_read_input(&mut state, 1, 1, None, false, 1000), None);
    assert_eq!(state.cycle_count.len(), 1);
}

#[test]
fn later_stages_warn_about_first_stage_only_sections() {
    let list = FirstStageOnlyConfigs(vec![
        ("lattice".to_string(), "lattice insertion".to_string()),
        ("comm".to_string(), "communicator setup".to_string()),
    ]);
    let keys = vec!["comm".to_string(), "thermo".to_string()];
    assert!(first_stage_only_warnings(0, Some("a"), &list, &keys).is_empty());
    assert_eq!(
        first_stage_only_warnings(2, None, &list, &keys),
        vec![
            "WARNING: Stage 2 [unnamed] overrides [comm], but communicator setup only runs in the first stage. This override will be ignored."
                .to_string()
        ]
    );
    assert!(FirstStageOnlyConfigs::default().0.is_empty());
}
