use grass::multi::{Namespace, SubApps};
use grass::physics::{Physics, StepResult};
use std::cell::Cell;
use std::rc::Rc;

#[derive(Default)]
struct Counts {
    prepares: Cell<usize>,
    steps: Cell<usize>,
    cleanups: Cell<usize>,
    done: Cell<bool>,
}

struct CountingPhysics {
    name: String,
    counts: Rc<Counts>,
}

impl CountingPhysics {
    fn new(name: &str) -> (Self, Rc<Counts>) {
        let counts = Rc::new(Counts::default());
        (Self { name: name.to_owned(), counts: Rc::clone(&counts) }, counts)
    }
}

impl Physics for CountingPhysics {
    fn name(&self) -> &str {
        &self.name
    }

    fn prepare(&mut self) {
        self.counts.prepares.set(self.counts.prepares.get() + 1);
    }

    fn step(&mut self) -> StepResult {
        self.counts.steps.set(self.counts.steps.get() + 1);
        StepResult::default()
    }

    fn is_done(&self) -> bool {
        self.counts.done.get()
    }

    fn cleanup(&mut self) {
        self.counts.cleanups.set(self.counts.cleanups.get() + 1);
    }
}

#[test]
fn cleanup_skips_participant_with_zero_ticks() {
    let (physics, counts) = CountingPhysics::new("idle");
    let mut subapps = SubApps::new();
    subapps.register(Box::new(physics)).unwrap();

    subapps.cleanup_all();

    assert_eq!(counts.prepares.get(), 0);
    assert_eq!(counts.steps.get(), 0);
    assert_eq!(counts.cleanups.get(), 0);
}

#[test]
fn repeated_cleanup_cleans_prepared_participant_once() {
    let (physics, counts) = CountingPhysics::new("active");
    let mut subapps = SubApps::new();
    subapps.register(Box::new(physics)).unwrap();
    subapps.tick("active");

    subapps.cleanup_all();
    subapps.cleanup_all();

    assert_eq!(counts.prepares.get(), 1);
    assert_eq!(counts.steps.get(), 1);
    assert_eq!(counts.cleanups.get(), 1);
}

#[test]
fn partial_preparation_only_cleans_prepared_participants() {
    let (prepared, prepared_counts) = CountingPhysics::new("prepared");
    let (idle, idle_counts) = CountingPhysics::new("idle");
    let mut subapps = SubApps::new();
    subapps.register(Box::new(prepared)).unwrap();
    subapps.register(Box::new(idle)).unwrap();

    subapps.prepare("prepared");
    subapps.cleanup_all();

    assert_eq!(prepared_counts.prepares.get(), 1);
    assert_eq!(prepared_counts.steps.get(), 0);
    assert_eq!(prepared_counts.cleanups.get(), 1);
    assert_eq!(idle_counts.prepares.get(), 0);
    assert_eq!(idle_counts.steps.get(), 0);
    assert_eq!(idle_counts.cleanups.get(), 0);
}

#[test]
fn ticks_prepare_once_then_step_every_time() {
    let (physics, counts) = CountingPhysics::new("dem");
    let mut subapps: SubApps<Box<dyn Physics>> = SubApps::new();
    subapps.register(Box::new(physics)).unwrap();
    subapps.prepare("dem");
    for _ in 0..3 {
        subapps.tick("dem");
    }
    assert_eq!(counts.prepares.get(), 1);
    assert_eq!(counts.steps.get(), 3);
}

#[test]
fn duplicate_namespace_is_refused() {
    let (first, _) = CountingPhysics::new("cfd");
    let (second, second_counts) = CountingPhysics::new("cfd");
    let mut subapps = SubApps::new();
    subapps.register(Box::new(first)).unwrap();
    let err = subapps.register(Box::new(second)).unwrap_err();
    assert_eq!(err.name, "cfd");
    assert_eq!(err.message(), "SubApps: namespace `cfd` already registered");
    assert_eq!(subapps.participants(), vec!["cfd".to_string()]);
    subapps.tick("cfd");
    assert_eq!(second_counts.steps.get(), 0);
}

#[test]
fn lookups_and_done_flags() {
    let (a, a_counts) = CountingPhysics::new("a");
    let (b, _) = CountingPhysics::new("b");
    let mut subapps = SubApps::new();
    assert!(!subapps.any_done());
    subapps.register(Box::new(a)).unwrap();
    subapps.register(Box::new(b)).unwrap();
    assert_eq!(subapps.participants(), vec!["a".to_string(), "b".to_string()]);
    assert_eq!(subapps.find("b").map(|p| p.name().to_string()), Some("b".to_string()));
    assert!(subapps.find("c").is_none());
    assert!(!subapps.any_done());
    a_counts.done.set(true);
    assert!(subapps.any_done());
}

struct CfdNs;
impl Namespace for CfdNs {
    const NAME: &'static str = "cfd";
}

#[test]
fn tick_n_prepares_once_and_steps_n_times() {
    let (cfd, cfd_counts) = CountingPhysics::new("cfd");
    let (dem, dem_counts) = CountingPhysics::new("dem");
    let mut subapps: SubApps<Box<dyn Physics>> = SubApps::new();
    subapps.register(Box::new(cfd)).unwrap();
    subapps.register(Box::new(dem)).unwrap();

    subapps.tick_n(CfdNs::NAME, 3);
    subapps.tick_n("dem", 0);
    subapps.tick_n(CfdNs::NAME, 2);

    assert_eq!(cfd_counts.prepares.get(), 1);
    assert_eq!(cfd_counts.steps.get(), 5);
    assert_eq!(dem_counts.prepares.get(), 0);
    assert_eq!(dem_counts.steps.get(), 0);
}
