//! Multi-stage run driving: per-stage cycle counters, the decision to advance
//! to the next stage or end the run, validation of the configured stages
//! against the declared stage names, and the diagnostics of a run.
//!
//! Reading the configuration, printing and the scheduler itself belong to the
//! caller; this module decides.

use crate::plugin::{lemma_strings_view_push, strings_view, StageNames};
use crate::text::{decimal, join, owned, render_usize, render_u64, str_equal};
use vstd::prelude::*;

verus! {

// ─── Stage validation ───────────────────────────────────────────────────────

/// The text std's `Debug` gives a list of names (`["a", "b"]`, each name
/// quoted and escaped).
pub uninterp spec fn debug_names(names: Seq<Seq<char>>) -> Seq<char>;

/// The text std's `Debug` gives a list of optional names
/// (`[Some("a"), None]`).
pub uninterp spec fn debug_optional_names(names: Seq<Option<Seq<char>>>) -> Seq<char>;

/// The views of a list of optional strings.
pub open spec fn optional_strings_view(v: Seq<Option<String>>) -> Seq<Option<Seq<char>>> {
    v.map_values(
        |s: Option<String>|
            match s {
                Some(t) => Some(t@),
                None => None,
            },
    )
}

/// `<Vec<String> as Debug>::fmt`, rendered to a string.
#[verifier::external_body]
fn render_debug_names(names: &Vec<String>) -> (s: String)
    ensures
        s@ == debug_names(strings_view(names@)),
{
    format!("{:?}", names)
}

/// `<Vec<Option<String>> as Debug>::fmt`, rendered to a string.
#[verifier::external_body]
fn render_debug_optional_names(names: &Vec<Option<String>>) -> (s: String)
    ensures
        s@ == debug_optional_names(optional_strings_view(names@)),
{
    format!("{:?}", names)
}

/// Structured error returned when the configured run stages do not match the
/// declared stage names.
#[derive(Debug, Clone, PartialEq, Eq)]
pub enum StageValidationError {
    /// The number of configured stages differs from the number of declared
    /// stage names.
    StageCountMismatch {
        /// Number of configured stages.
        toml_count: usize,
        /// Number of declared stage names.
        enum_count: usize,
        /// Declared stage names, in order.
        expected_names: Vec<String>,
        /// Configured stage names, in order; `None` for a stage without one.
        toml_names: Vec<Option<String>>,
    },
    /// A configured stage's name differs from the declared name at its index.
    StageNameMismatch {
        /// Zero-based stage index.
        index: usize,
        /// Declared name at this index.
        expected: String,
        /// Configured name at this index.
        actual: String,
    },
    /// A configured stage has no name while stage names are declared.
    MissingStageName {
        /// Zero-based stage index.
        index: usize,
        /// Declared name at this index.
        expected: String,
    },
}

/// Mathematical model of a [`StageValidationError`].
pub enum StageValidationFault {
    StageCountMismatch {
        toml_count: usize,
        enum_count: usize,
        expected_names: Seq<Seq<char>>,
        toml_names: Seq<Option<Seq<char>>>,
    },
    StageNameMismatch { index: usize, expected: Seq<char>, actual: Seq<char> },
    MissingStageName { index: usize, expected: Seq<char> },
}

impl View for StageValidationError {
    type V = StageValidationFault;

    open spec fn view(&self) -> StageValidationFault {
        match self {
            StageValidationError::StageCountMismatch {
                toml_count,
                enum_count,
                expected_names,
                toml_names,
            } => StageValidationFault::StageCountMismatch {
                toml_count: *toml_count,
                enum_count: *enum_count,
                expected_names: strings_view(expected_names@),
                toml_names: optional_strings_view(toml_names@),
            },
            StageValidationError::StageNameMismatch { index, expected, actual } => {
                StageValidationFault::StageNameMismatch {
                    index: *index,
                    expected: expected@,
                    actual: actual@,
                }
            },
            StageValidationError::MissingStageName { index, expected } => {
                StageValidationFault::MissingStageName { index: *index, expected: expected@ }
            },
        }
    }
}

/// The text of a stage validation error.
pub open spec fn stage_validation_text(e: StageValidationFault) -> Seq<char> {
    match e {
        StageValidationFault::StageCountMismatch {
            toml_count,
            enum_count,
            expected_names,
            toml_names,
        } => "stage count mismatch: "@ + decimal(toml_count as nat)
            + " [[run]] stages in TOML, but StageEnum has "@ + decimal(enum_count as nat)
            + " variants. Expected stage names: "@ + debug_names(expected_names)
            + ". TOML stage names: "@ + debug_optional_names(toml_names) + "."@,
        StageValidationFault::StageNameMismatch { index, expected, actual } => "stage "@ + decimal(
            index as nat,
        ) + " name mismatch: TOML has \""@ + actual + "\", but StageEnum expects \""@ + expected
            + "\"."@,
        StageValidationFault::MissingStageName { index, expected } => "stage "@ + decimal(
            index as nat,
        ) + " is missing a name in TOML. Expected name: \""@ + expected + "\"."@,
    }
}

impl StageValidationError {
    /// The diagnostic text of this error.
    pub fn message(&self) -> (s: String)
        ensures
            s@ == stage_validation_text(self@),
    {
        match self {
            StageValidationError::StageCountMismatch {
                toml_count,
                enum_count,
                expected_names,
                toml_names,
            } => {
                let s = join(owned("stage count mismatch: "), render_usize(*toml_count).as_str());
                let s = join(s, " [[run]] stages in TOML, but StageEnum has ");
                let s = join(s, render_usize(*enum_count).as_str());
                let s = join(s, " variants. Expected stage names: ");
                let s = join(s, render_debug_names(expected_names).as_str());
                let s = join(s, ". TOML stage names: ");
                let s = join(s, render_debug_optional_names(toml_names).as_str());
                join(s, ".")
            },
            StageValidationError::StageNameMismatch { index, expected, actual } => {
                let s = join(owned("stage "), render_usize(*index).as_str());
                let s = join(s, " name mismatch: TOML has \"");
                let s = join(s, actual.as_str());
                let s = join(s, "\", but StageEnum expects \"");
                let s = join(s, expected.as_str());
                join(s, "\".")
            },
            StageValidationError::MissingStageName { index, expected } => {
                let s = join(owned("stage "), render_usize(*index).as_str());
                let s = join(s, " is missing a name in TOML. Expected name: \"");
                let s = join(s, expected.as_str());
                join(s, "\".")
            },
        }
    }
}

/// The first stage at or after `i` whose configured name is absent or
/// differs from the declared one, as a fault.
pub open spec fn first_stage_fault(
    names: Seq<Option<Seq<char>>>,
    expected: Seq<Seq<char>>,
    i: int,
) -> Option<StageValidationFault>
    decreases names.len() - i,
{
    if i < 0 || i >= names.len() || i >= expected.len() {
        None
    } else {
        match names[i] {
            Some(n) => if n != expected[i] {
                Some(
                    StageValidationFault::StageNameMismatch {
                        index: i as usize,
                        expected: expected[i],
                        actual: n,
                    },
                )
            } else {
                first_stage_fault(names, expected, i + 1)
            },
            None => Some(StageValidationFault::MissingStageName { index: i as usize, expected: expected[i] }),
        }
    }
}

/// Why configured stages named `names` do not match the declared stage names
/// `expected`, if they do not: the counts must agree, then every stage must
/// carry the declared name at its index.
pub open spec fn stage_validation_fault(
    names: Seq<Option<Seq<char>>>,
    expected: Seq<Seq<char>>,
) -> Option<StageValidationFault> {
    if names.len() != expected.len() {
        Some(
            StageValidationFault::StageCountMismatch {
                toml_count: names.len() as usize,
                enum_count: expected.len() as usize,
                expected_names: expected,
                toml_names: names,
            },
        )
    } else {
        first_stage_fault(names, expected, 0)
    }
}

/// The views of a list of string slices.
pub open spec fn str_list_view(v: Seq<&str>) -> Seq<Seq<char>> {
    v.map_values(|s: &str| s@)
}

/// Check that the configured stages (known by their optional names, in
/// order) match the declared stage names in count and in order.
pub fn try_validate_stages(stage_names: &Vec<Option<String>>, expected: &StageNames) -> (r: Result<
    (),
    StageValidationError,
>)
    ensures
        ({
            let fault = stage_validation_fault(
                optional_strings_view(stage_names@),
                str_list_view(expected.0@),
            );
            &&& r is Err <==> fault is Some
            &&& r matches Err(e) ==> fault == Some(e@)
        }),
{
    let declared = expected.0;
    let ghost names = optional_strings_view(stage_names@);
    let ghost exp = str_list_view(declared@);
    if stage_names.len() != declared.len() {
        let mut expected_names: Vec<String> = Vec::new();
        let mut k: usize = 0;
        while k < declared.len()
            invariant
                0 <= k <= declared.len(),
                exp == str_list_view(declared@),
                strings_view(expected_names@) == exp.take(k as int),
            decreases declared.len() - k,
        {
            let ghost prev = expected_names@;
            let item = owned(declared[k]);
            expected_names.push(item);
            proof {
                lemma_strings_view_push(prev, item);
                assert(exp[k as int] == declared@[k as int]@);
                assert(exp.take(k + 1) =~= exp.take(k as int).push(exp[k as int]));
            }
            k += 1;
        }
        assert(exp.take(declared.len() as int) =~= exp);
        let mut toml_names: Vec<Option<String>> = Vec::new();
        let mut j: usize = 0;
        while j < stage_names.len()
            invariant
                0 <= j <= stage_names.len(),
                names == optional_strings_view(stage_names@),
                optional_strings_view(toml_names@) == names.take(j as int),
            decreases stage_names.len() - j,
        {
            let item = match &stage_names[j] {
                Some(n) => Some(owned(n.as_str())),
                None => None,
            };
            let ghost prev = toml_names@;
            toml_names.push(item);
            proof {
                assert(optional_strings_view(prev.push(item)) =~= optional_strings_view(prev).push(
                    names[j as int],
                ));
                assert(names.take(j + 1) =~= names.take(j as int).push(names[j as int]));
            }
            j += 1;
        }
        assert(names.take(stage_names.len() as int) =~= names);
        return Err(
            StageValidationError::StageCountMismatch {
                toml_count: stage_names.len(),
                enum_count: declared.len(),
                expected_names,
                toml_names,
            },
        );
    }
    let mut i: usize = 0;
    while i < stage_names.len()
        invariant
            0 <= i <= stage_names.len(),
            stage_names.len() == declared.len(),
            names == optional_strings_view(stage_names@),
            exp == str_list_view(declared@),
            exp == str_list_view(expected.0@),
            stage_validation_fault(names, exp) == first_stage_fault(names, exp, i as int),
        decreases stage_names.len() - i,
    {
        proof {
            assert(exp[i as int] == declared@[i as int]@);
        }
        match &stage_names[i] {
            Some(name) => {
                assert(names[i as int] == Some(name@));
                if !str_equal(name.as_str(), declared[i]) {
                    assert(name@ != exp[i as int]);
                    assert(first_stage_fault(names, exp, i as int) == Some(
                        StageValidationFault::StageNameMismatch {
                            index: i,
                            expected: exp[i as int],
                            actual: name@,
                        },
                    ));
                    return Err(
                        StageValidationError::StageNameMismatch {
                            index: i,
                            expected: owned(declared[i]),
                            actual: owned(name.as_str()),
                        },
                    );
                }
            },
            None => {
                assert(names[i as int] == None::<Seq<char>>);
                return Err(StageValidationError::MissingStageName { index: i, expected: owned(declared[i]) });
            },
        }
        i += 1;
    }
    Ok(())
}

// ─── Cycle counting ─────────────────────────────────────────────────────────

/// Cycle counts per stage and in total, maintained by [`update_cycle`].
pub struct RunState {
    /// Total cycles executed across all stages so far.
    pub total_cycle: usize,
    /// Cycles executed in each stage, indexed by stage.
    pub cycle_count: Vec<u32>,
    /// Cycles the stage runs for, indexed by stage; 0 for a skipped stage.
    pub cycle_remaining: Vec<u32>,
}

impl Default for RunState {
    fn default() -> (r: Self)
        ensures
            r.total_cycle == 0,
            r.cycle_count@.len() == 0,
            r.cycle_remaining@.len() == 0,
    {
        RunState::new()
    }
}

impl RunState {
    /// Zeroed counters with no stage opened yet.
    pub fn new() -> (r: Self)
        ensures
            r.total_cycle == 0,
            r.cycle_count@.len() == 0,
            r.cycle_remaining@.len() == 0,
    {
        RunState { total_cycle: 0, cycle_count: Vec::new(), cycle_remaining: Vec::new() }
    }
}

/// The display label of a stage: its name, or `fallback` without one.
pub open spec fn stage_label(name: Option<Seq<char>>, fallback: Seq<char>) -> Seq<char> {
    match name {
        Some(n) => n,
        None => fallback,
    }
}

/// The banner a stage opens with: a skipped stage says so; a run of several
/// stages names the stage and its step count; a single-stage run gives the
/// step count alone.
pub open spec fn stage_banner(
    index: usize,
    name: Option<Seq<char>>,
    skip: bool,
    steps: u32,
    num_stages: usize,
) -> Seq<char> {
    let label = stage_label(name, "(unnamed)"@);
    if skip {
        "Skipping stage "@ + decimal(index as nat) + " ["@ + label + "]"@
    } else if num_stages > 1 {
        "Run stage "@ + decimal(index as nat) + " ["@ + label + "]: "@ + decimal(steps as nat)
            + " steps"@
    } else {
        "Run: "@ + decimal(steps as nat) + " steps"@
    }
}

/// The view of an optional string slice.
pub open spec fn optional_str_view(s: Option<&str>) -> Option<Seq<char>> {
    match s {
        Some(t) => Some(t@),
        None => None,
    }
}

/// Open the counters of stage `index` of a run of `num_stages` stages, whose
/// configuration is `name`, `skip` and `steps`: a skipped stage runs for no
/// cycle. Gives the stage's banner, or nothing once past the last stage.
pub fn run_read_input(
    run_state: &mut RunState,
    index: usize,
    num_stages: usize,
    name: Option<&str>,
    skip: bool,
    steps: u32,
) -> (banner: Option<String>)
    ensures
        index >= num_stages ==> banner is None && *final(run_state) == *old(run_state),
        index < num_stages ==> {
            &&& banner matches Some(b) && b@ == stage_banner(
                index,
                optional_str_view(name),
                skip,
                steps,
                num_stages,
            )
            &&& final(run_state).total_cycle == old(run_state).total_cycle
            &&& final(run_state).cycle_count@ == old(run_state).cycle_count@.push(0)
            &&& final(run_state).cycle_remaining@ == old(run_state).cycle_remaining@.push(
                if skip {
                    0
                } else {
                    steps
                },
            )
        },
{
    if index >= num_stages {
        return None;
    }
    let label = match name {
        Some(n) => n,
        None => "(unnamed)",
    };
    if skip {
        run_state.cycle_count.push(0);
        run_state.cycle_remaining.push(0);
        let s = join(owned("Skipping stage "), render_usize(index).as_str());
        let s = join(s, " [");
        let s = join(s, label);
        return Some(join(s, "]"));
    }
    run_state.cycle_count.push(0);
    run_state.cycle_remaining.push(steps);
    if num_stages > 1 {
        let s = join(owned("Run stage "), render_usize(index).as_str());
        let s = join(s, " [");
        let s = join(s, label);
        let s = join(s, "]: ");
        let s = join(s, render_u64(steps as u64).as_str());
        Some(join(s, " steps"))
    } else {
        let s = join(owned("Run: "), render_u64(steps as u64).as_str());
        Some(join(s, " steps"))
    }
}

/// What one cycle decided: whether the run moves on to the next stage, and
/// whether that stage is past the last one, so the run ends.
#[derive(Debug, Clone, Copy, PartialEq, Eq, Structural)]
pub struct CycleDecision {
    /// Move to the next stage (and clear any advance request).
    pub advance: bool,
    /// The next stage is past the last one: the run ends.
    pub end: bool,
}

/// Whether a cycle of a stage that has run `count` of its `remaining` cycles
/// moves on: a skipped stage (no cycles) moves on at once; otherwise when
/// this cycle is its last, or an advance was requested.
pub open spec fn cycle_advances(count: u32, remaining: u32, advance_requested: bool) -> bool {
    remaining == 0 || count + 1 == remaining || advance_requested
}

/// Count one cycle of stage `index` of a run of `num_stages` stages and
/// decide whether the run moves on. A skipped stage counts nothing.
pub fn update_cycle(
    run_state: &mut RunState,
    index: usize,
    advance_requested: bool,
    num_stages: usize,
) -> (d: CycleDecision)
    requires
        index < old(run_state).cycle_count@.len(),
        index < old(run_state).cycle_remaining@.len(),
        old(run_state).cycle_remaining@[index as int] != 0 ==> old(run_state).total_cycle
            < usize::MAX && old(run_state).cycle_count@[index as int] < u32::MAX,
    ensures
        ({
            let count = old(run_state).cycle_count@[index as int];
            let remaining = old(run_state).cycle_remaining@[index as int];
            &&& d.advance == cycle_advances(count, remaining, advance_requested)
            &&& d.end == (d.advance && index + 1 >= num_stages)
            &&& final(run_state).cycle_remaining@ == old(run_state).cycle_remaining@
            &&& remaining == 0 ==> final(run_state).total_cycle == old(run_state).total_cycle
                && final(run_state).cycle_count@ == old(run_state).cycle_count@
            &&& remaining != 0 ==> final(run_state).total_cycle == old(run_state).total_cycle + 1
                && final(run_state).cycle_count@ == old(run_state).cycle_count@.update(
                index as int,
                (count + 1) as u32,
            )
        }),
{
    let remaining = run_state.cycle_remaining[index];
    if remaining == 0 {
        return CycleDecision { advance: true, end: index >= num_stages || index + 1 >= num_stages };
    }
    let count = run_state.cycle_count[index] + 1;
    run_state.cycle_count.set(index, count);
    run_state.total_cycle = run_state.total_cycle + 1;
    let advance = count == remaining || advance_requested;
    CycleDecision { advance, end: advance && (index >= num_stages || index + 1 >= num_stages) }
}

/// A stage of `n` cycles that nobody asks to cut short runs exactly `n`
/// cycles: every earlier cycle stays in the stage, and the `n`-th moves on.
pub proof fn law_stage_runs_its_steps(n: u32, count: u32)
    requires
        count < n,
    ensures
        cycle_advances(count, n, false) <==> count + 1 == n,
{
}

/// A skipped stage, or one whose advance was requested, moves on at once.
pub proof fn law_skip_or_request_advances(count: u32, remaining: u32)
    ensures
        cycle_advances(count, 0, false),
        cycle_advances(count, remaining, true),
{
}

// ─── First-stage-only sections ──────────────────────────────────────────────

/// Sections (key, description) that are read only during the first stage.
pub struct FirstStageOnlyConfigs(pub Vec<(String, String)>);

impl Default for FirstStageOnlyConfigs {
    fn default() -> (c: Self)
        ensures
            c.0@.len() == 0,
    {
        FirstStageOnlyConfigs(Vec::new())
    }
}

/// The warning that stage `index` (labelled `label`) overrides `section`,
/// which `description` reads in the first stage only.
pub open spec fn override_warning(
    index: usize,
    label: Seq<char>,
    section: Seq<char>,
    description: Seq<char>,
) -> Seq<char> {
    "WARNING: Stage "@ + decimal(index as nat) + " ["@ + label + "] overrides ["@ + section
        + "], but "@ + description
        + " only runs in the first stage. This override will be ignored."@
}

/// The warnings for the first-stage-only sections `list[..k]` that the
/// stage's override keys `keys` override.
pub open spec fn override_warnings(
    index: usize,
    label: Seq<char>,
    list: Seq<(Seq<char>, Seq<char>)>,
    keys: Seq<Seq<char>>,
) -> Seq<Seq<char>>
    decreases list.len(),
{
    if list.len() == 0 {
        Seq::empty()
    } else {
        let prev = override_warnings(index, label, list.drop_last(), keys);
        let (section, description) = list.last();
        if keys.contains(section) {
            prev.push(override_warning(index, label, section, description))
        } else {
            prev
        }
    }
}

/// The views of a list of string pairs.
pub open spec fn pairs_view(v: Seq<(String, String)>) -> Seq<(Seq<char>, Seq<char>)> {
    v.map_values(|p: (String, String)| (p.0@, p.1@))
}

/// Whether `name` is among `names`.
fn contains_key(names: &Vec<String>, name: &str) -> (r: bool)
    ensures
        r == strings_view(names@).contains(name@),
{
    let mut i: usize = 0;
    while i < names.len()
        invariant
            0 <= i <= names.len(),
            forall|j: int| 0 <= j < i ==> names@[j]@ != name@,
        decreases names.len() - i,
    {
        if str_equal(names[i].as_str(), name) {
            assert(strings_view(names@)[i as int] == name@);
            return true;
        }
        i += 1;
    }
    proof {
        if strings_view(names@).contains(name@) {
            let j = choose|j: int| 0 <= j < names@.len() && strings_view(names@)[j] == name@;
            assert(names@[j]@ == name@);
        }
    }
    false
}

/// The warnings stage `index` (named `name`) deserves for overriding, with
/// its override keys `override_keys`, sections that are read in the first
/// stage only. The first stage deserves none.
pub fn first_stage_only_warnings(
    index: usize,
    name: Option<&str>,
    first_stage_only: &FirstStageOnlyConfigs,
    override_keys: &Vec<String>,
) -> (w: Vec<String>)
    ensures
        index == 0 ==> w@.len() == 0,
        index > 0 ==> strings_view(w@) == override_warnings(
            index,
            stage_label(optional_str_view(name), "unnamed"@),
            pairs_view(first_stage_only.0@),
            strings_view(override_keys@),
        ),
{
    let mut warnings: Vec<String> = Vec::new();
    if index == 0 {
        return warnings;
    }
    let label = match name {
        Some(n) => n,
        None => "unnamed",
    };
    let ghost list = pairs_view(first_stage_only.0@);
    let ghost keys = strings_view(override_keys@);
    let mut i: usize = 0;
    while i < first_stage_only.0.len()
        invariant
            0 <= i <= first_stage_only.0.len(),
            list == pairs_view(first_stage_only.0@),
            keys == strings_view(override_keys@),
            label@ == stage_label(optional_str_view(name), "unnamed"@),
            strings_view(warnings@) == override_warnings(index, label@, list.take(i as int), keys),
        decreases first_stage_only.0.len() - i,
    {
        let pair = &first_stage_only.0[i];
        proof {
            assert(list.take(i + 1).drop_last() =~= list.take(i as int));
            assert(list.take(i + 1).last() == (pair.0@, pair.1@));
        }
        if contains_key(override_keys, pair.0.as_str()) {
            let s = join(owned("WARNING: Stage "), render_usize(index).as_str());
            let s = join(s, " [");
            let s = join(s, label);
            let s = join(s, "] overrides [");
            let s = join(s, pair.0.as_str());
            let s = join(s, "], but ");
            let s = join(s, pair.1.as_str());
            let s = join(s, " only runs in the first stage. This override will be ignored.");
            let ghost prev = warnings@;
            warnings.push(s);
            proof {
                assert(strings_view(warnings@) =~= strings_view(prev).push(s@));
            }
        }
        i += 1;
    }
    assert(list.take(first_stage_only.0.len() as int) =~= list);
    warnings
}

} // verus!
