//! The sub-Apps a parent orchestrates, by namespace: each is prepared once
//! before its first step, and cleaned up once at the end if it was ever
//! prepared.

use crate::physics::Physics;
use crate::plugin::{lemma_strings_view_push, strings_view};
use crate::text::{owned, str_equal};
use vstd::prelude::*;

verus! {

/// Registration refused: a sub-App already uses this namespace.
#[derive(Debug, Clone, PartialEq, Eq)]
pub struct DuplicateNamespace {
    /// The namespace that was registered twice.
    pub name: String,
}

impl DuplicateNamespace {
    /// The diagnostic text of this refusal.
    pub fn message(&self) -> (s: String)
        ensures
            s@ == "SubApps: namespace `"@ + self.name@ + "` already registered"@,
    {
        let s = crate::text::join(owned("SubApps: namespace `"), self.name.as_str());
        crate::text::join(s, "` already registered")
    }
}

/// Compile-time marker for a sub-App namespace: a zero-sized type that
/// stands for a namespace string, so that a typo fails at compile time.
pub trait Namespace {
    /// The runtime namespace string this marker represents.
    const NAME: &'static str;
}

/// Model of [`SubApps`]: per registered sub-App, in registration order, its
/// namespace, whether it was prepared and cleaned up, and how many times
/// each lifecycle method of it was called.
pub struct SubAppsView {
    pub names: Seq<Seq<char>>,
    pub prepared: Seq<bool>,
    pub cleaned: Seq<bool>,
    pub prepare_calls: Seq<nat>,
    pub step_calls: Seq<nat>,
    pub cleanup_calls: Seq<nat>,
}

/// The lifecycle every sub-App follows: `prepare` is called once if at all,
/// and before any `step`; `cleanup` is called once if at all, and only on a
/// prepared sub-App.
pub open spec fn lifecycle_holds(v: SubAppsView) -> bool {
    let n = v.names.len();
    &&& v.prepared.len() == n
    &&& v.cleaned.len() == n
    &&& v.prepare_calls.len() == n
    &&& v.step_calls.len() == n
    &&& v.cleanup_calls.len() == n
    &&& forall|i: int, j: int| 0 <= i < j < n ==> v.names[i] != v.names[j]
    &&& forall|i: int|
        0 <= i < n ==> #[trigger] v.prepare_calls[i] == (if v.prepared[i] {
            1nat
        } else {
            0nat
        })
    &&& forall|i: int|
        0 <= i < n ==> #[trigger] v.cleanup_calls[i] == (if v.cleaned[i] {
            1nat
        } else {
            0nat
        })
    &&& forall|i: int| 0 <= i < n && #[trigger] v.cleaned[i] ==> v.prepared[i]
    &&& forall|i: int| 0 <= i < n && #[trigger] v.step_calls[i] > 0 ==> v.prepared[i]
}

/// The position of namespace `ns` among `names`.
pub open spec fn index_of_name(names: Seq<Seq<char>>, ns: Seq<char>) -> int {
    choose|i: int| 0 <= i < names.len() && names[i] == ns
}

/// What [`SubApps::cleanup_all`] leaves: every prepared sub-App cleaned up,
/// with one more cleanup call for each that was not cleaned up yet.
pub open spec fn after_cleanup(v: SubAppsView) -> SubAppsView {
    SubAppsView {
        cleaned: v.prepared,
        cleanup_calls: Seq::new(
            v.names.len(),
            |i: int|
                if v.prepared[i] && !v.cleaned[i] {
                    v.cleanup_calls[i] + 1
                } else {
                    v.cleanup_calls[i]
                },
        ),
        ..v
    }
}

/// Owning collection of named sub-Apps registered on a parent; `P` is
/// usually `Box<dyn Physics>`.
pub struct SubApps<P: Physics> {
    physics: Vec<P>,
    names: Vec<String>,
    prepared: Vec<bool>,
    cleaned: Vec<bool>,
    prepare_calls: Ghost<Seq<nat>>,
    step_calls: Ghost<Seq<nat>>,
    cleanup_calls: Ghost<Seq<nat>>,
}

impl<P: Physics> View for SubApps<P> {
    type V = SubAppsView;

    closed spec fn view(&self) -> SubAppsView {
        SubAppsView {
            names: strings_view(self.names@),
            prepared: self.prepared@,
            cleaned: self.cleaned@,
            prepare_calls: self.prepare_calls@,
            step_calls: self.step_calls@,
            cleanup_calls: self.cleanup_calls@,
        }
    }
}

impl<P: Physics> SubApps<P> {
    /// One sub-App per registration, and the lifecycle holds.
    pub closed spec fn wf(&self) -> bool {
        &&& self.physics@.len() == self.names@.len()
        &&& lifecycle_holds(self@)
    }

    /// The registered subsystems, in registration order.
    pub closed spec fn subsystems(&self) -> Seq<P> {
        self.physics@
    }

    /// Each registered namespace has exactly one subsystem, at the same
    /// position.
    pub proof fn lemma_one_subsystem_per_namespace(&self)
        requires
            self.wf(),
        ensures
            self.subsystems().len() == self@.names.len(),
    {
    }

    /// An empty collection.
    pub fn new() -> (r: Self)
        ensures
            r.wf(),
            r@ == (SubAppsView {
                names: Seq::empty(),
                prepared: Seq::empty(),
                cleaned: Seq::empty(),
                prepare_calls: Seq::empty(),
                step_calls: Seq::empty(),
                cleanup_calls: Seq::empty(),
            }),
    {
        let r = SubApps {
            physics: Vec::new(),
            names: Vec::new(),
            prepared: Vec::new(),
            cleaned: Vec::new(),
            prepare_calls: Ghost(Seq::empty()),
            step_calls: Ghost(Seq::empty()),
            cleanup_calls: Ghost(Seq::empty()),
        };
        assert(r@.names =~= Seq::<Seq<char>>::empty());
        assert(r@.prepared =~= Seq::<bool>::empty());
        assert(r@.cleaned =~= Seq::<bool>::empty());
        r
    }

    /// The position of namespace `ns`, if registered.
    fn idx_of(&self, ns: &str) -> (r: Option<usize>)
        requires
            self.wf(),
        ensures
            r is None <==> !self@.names.contains(ns@),
            r matches Some(i) ==> i < self@.names.len() && self@.names[i as int] == ns@ && i
                == index_of_name(self@.names, ns@),
    {
        let mut i: usize = 0;
        while i < self.names.len()
            invariant
                self.wf(),
                0 <= i <= self.names@.len(),
                forall|j: int| 0 <= j < i ==> self@.names[j] != ns@,
            decreases self.names.len() - i,
        {
            if str_equal(self.names[i].as_str(), ns) {
                proof {
                    assert(self@.names[i as int] == ns@);
                    let k = index_of_name(self@.names, ns@);
                    assert(0 <= k < self@.names.len() && self@.names[k] == ns@);
                    if k != i {
                        assert(self@.names[k] == self@.names[i as int]);
                    }
                }
                return Some(i);
            }
            i += 1;
        }
        proof {
            if self@.names.contains(ns@) {
                let j = choose|j: int| 0 <= j < self@.names.len() && self@.names[j] == ns@;
                assert(self@.names[j] == ns@);
            }
        }
        None
    }

    /// Register a sub-App under its `name()`. A namespace already in use is
    /// refused and nothing changes; otherwise the sub-App is appended,
    /// neither prepared nor cleaned up.
    pub fn register(&mut self, p: P) -> (r: Result<(), DuplicateNamespace>)
        requires
            old(self).wf(),
        ensures
            final(self).wf(),
            match r {
                Ok(()) => {
                    let n = old(self)@.names.len();
                    &&& final(self)@.names.len() == n + 1
                    &&& final(self)@.names.take(n as int) == old(self)@.names
                    &&& !old(self)@.names.contains(final(self)@.names[n as int])
                    &&& final(self)@.prepared == old(self)@.prepared.push(false)
                    &&& final(self)@.cleaned == old(self)@.cleaned.push(false)
                    &&& final(self)@.prepare_calls == old(self)@.prepare_calls.push(0)
                    &&& final(self)@.step_calls == old(self)@.step_calls.push(0)
                    &&& final(self)@.cleanup_calls == old(self)@.cleanup_calls.push(0)
                },
                Err(e) => old(self)@.names.contains(e.name@) && final(self)@ == old(self)@,
            },
            r is Ok ==> final(self).subsystems() == old(self).subsystems().push(p),
            r is Err ==> final(self).subsystems() == old(self).subsystems(),
            exists|s: &str|
                call_ensures(P::name, (&p,), s) && match r {
                    Ok(()) => final(self)@.names.last() == s@,
                    Err(e) => e.name@ == s@,
                },
    {
        let name_of = P::name;
        let given = name_of(&p);
        let name = owned(given);
        if let Some(_) = self.idx_of(name.as_str()) {
            return Err(DuplicateNamespace { name });
        }
        let ghost old_view = self@;
        proof {
            lemma_strings_view_push(self.names@, name);
        }
        self.names.push(name);
        self.physics.push(p);
        self.prepared.push(false);
        self.cleaned.push(false);
        proof {
            self.prepare_calls@ = self.prepare_calls@.push(0);
            self.step_calls@ = self.step_calls@.push(0);
            self.cleanup_calls@ = self.cleanup_calls@.push(0);
            let n = old_view.names.len();
            assert(self@.names.take(n as int) =~= old_view.names);
            assert(self@.names[n as int] == name@);
            assert forall|i: int, j: int| 0 <= i < j < n + 1 implies self@.names[i] != self@.names[j] by {
                assert(old_view.names[i] == self@.names[i]);
                if j == n {
                    assert(old_view.names.contains(old_view.names[i]));
                } else {
                    assert(old_view.names[j] == self@.names[j]);
                }
            }
            let v = self@;
            assert forall|i: int| 0 <= i < n + 1 implies #[trigger] v.prepare_calls[i] == (if v.prepared[i] {
                1nat
            } else {
                0nat
            }) by {
                if i < n {
                    assert(old_view.prepare_calls[i] == v.prepare_calls[i]);
                }
            }
            assert forall|i: int| 0 <= i < n + 1 implies #[trigger] v.cleanup_calls[i] == (if v.cleaned[i] {
                1nat
            } else {
                0nat
            }) by {
                if i < n {
                    assert(old_view.cleanup_calls[i] == v.cleanup_calls[i]);
                }
            }
            assert forall|i: int| 0 <= i < n + 1 && #[trigger] v.cleaned[i] implies v.prepared[i] by {
                assert(old_view.cleaned[i] == v.cleaned[i]);
            }
            assert forall|i: int| 0 <= i < n + 1 && #[trigger] v.step_calls[i] > 0 implies v.prepared[i] by {
                assert(old_view.step_calls[i] == v.step_calls[i]);
            }
            assert(lifecycle_holds(v));
        }
        Ok(())
    }

    /// The sub-App registered under `ns`, if any.
    pub fn find(&self, ns: &str) -> (r: Option<&P>)
        requires
            self.wf(),
        ensures
            r is Some <==> self@.names.contains(ns@),
    {
        match self.idx_of(ns) {
            Some(i) => Some(&self.physics[i]),
            None => None,
        }
    }

    /// The namespaces of all registered sub-Apps, in registration order.
    pub fn participants(&self) -> (r: Vec<String>)
        ensures
            strings_view(r@) == self@.names,
    {
        let mut r: Vec<String> = Vec::new();
        let mut i: usize = 0;
        while i < self.names.len()
            invariant
                0 <= i <= self.names@.len(),
                strings_view(r@) == self@.names.take(i as int),
            decreases self.names.len() - i,
        {
            let copy = owned(self.names[i].as_str());
            proof {
                lemma_strings_view_push(r@, copy);
            }
            r.push(copy);
            assert(strings_view(r@) =~= self@.names.take(i + 1));
            i += 1;
        }
        assert(self@.names.take(self.names@.len() as int) =~= self@.names);
        r
    }

    /// Prepare sub-App `i` unless it was prepared already.
    fn prepare_at(&mut self, i: usize)
        requires
            old(self).wf(),
            i < old(self)@.names.len(),
        ensures
            final(self).wf(),
            final(self)@ == (SubAppsView {
                prepared: old(self)@.prepared.update(i as int, true),
                prepare_calls: old(self)@.prepare_calls.update(i as int, 1),
                ..old(self)@
            }),
    {
        if !self.prepared[i] {
            self.physics[i].prepare();
            self.prepared.set(i, true);
            proof {
                self.prepare_calls@ = self.prepare_calls@.update(i as int, 1);
            }
        }
        proof {
            assert(old(self)@.prepare_calls[i as int] == (if old(self)@.prepared[i as int] {
                1nat
            } else {
                0nat
            }));
            assert(self@.prepared =~= old(self)@.prepared.update(i as int, true));
            assert(self@.prepare_calls =~= old(self)@.prepare_calls.update(i as int, 1));
        }
    }

    /// Prepare the sub-App registered under `ns`, once: a sub-App prepared
    /// already is left as it is.
    pub fn prepare(&mut self, ns: &str)
        requires
            old(self).wf(),
            old(self)@.names.contains(ns@),
        ensures
            final(self).wf(),
            ({
                let i = index_of_name(old(self)@.names, ns@);
                final(self)@ == (SubAppsView {
                    prepared: old(self)@.prepared.update(i, true),
                    prepare_calls: old(self)@.prepare_calls.update(i, 1),
                    ..old(self)@
                })
            }),
    {
        let i = match self.idx_of(ns) {
            Some(i) => i,
            None => {
                return;
            },
        };
        self.prepare_at(i);
    }

    /// Advance the sub-App registered under `ns` by one step, preparing it
    /// first if this is its first tick.
    pub fn tick(&mut self, ns: &str)
        requires
            old(self).wf(),
            old(self)@.names.contains(ns@),
        ensures
            final(self).wf(),
            ({
                let i = index_of_name(old(self)@.names, ns@);
                final(self)@ == (SubAppsView {
                    prepared: old(self)@.prepared.update(i, true),
                    prepare_calls: old(self)@.prepare_calls.update(i, 1),
                    step_calls: old(self)@.step_calls.update(i, old(self)@.step_calls[i] + 1),
                    ..old(self)@
                })
            }),
    {
        let i = match self.idx_of(ns) {
            Some(i) => i,
            None => {
                return;
            },
        };
        self.prepare_at(i);
        let _ = self.physics[i].step();
        proof {
            let ghost before = self.step_calls@;
            self.step_calls@ = self.step_calls@.update(i as int, before[i as int] + 1);
        }
    }

    /// Advance the sub-App registered under `ns` by `n` steps, preparing it
    /// before the first of them if it was not prepared yet; `n == 0`
    /// changes nothing. This is what a parent's per-cycle tick of a sub-App
    /// does.
    pub fn tick_n(&mut self, ns: &str, n: usize)
        requires
            old(self).wf(),
            old(self)@.names.contains(ns@),
        ensures
            final(self).wf(),
            ({
                let i = index_of_name(old(self)@.names, ns@);
                if n == 0 {
                    final(self)@ == old(self)@
                } else {
                    final(self)@ == (SubAppsView {
                        prepared: old(self)@.prepared.update(i, true),
                        prepare_calls: old(self)@.prepare_calls.update(i, 1),
                        step_calls: old(self)@.step_calls.update(i, old(self)@.step_calls[i] + n as nat),
                        ..old(self)@
                    })
                }
            }),
    {
        let ghost v0 = self@;
        let ghost i = index_of_name(v0.names, ns@);
        proof {
            assert(lifecycle_holds(v0));
        }
        let mut k: usize = 0;
        while k < n
            invariant
                self.wf(),
                0 <= k <= n,
                v0.names.contains(ns@),
                lifecycle_holds(v0),
                i == index_of_name(v0.names, ns@),
                k == 0 ==> self@ == v0,
                k > 0 ==> self@ == (SubAppsView {
                    prepared: v0.prepared.update(i, true),
                    prepare_calls: v0.prepare_calls.update(i, 1),
                    step_calls: v0.step_calls.update(i, v0.step_calls[i] + k as nat),
                    ..v0
                }),
            decreases n - k,
        {
            let ghost prev = self@;
            proof {
                assert(prev.names == v0.names);
                assert(0 <= i < v0.names.len() && v0.names[i] == ns@);
            }
            self.tick(ns);
            proof {
                assert(prev.step_calls[i] == v0.step_calls[i] + k as nat);
                assert(self@.step_calls =~= v0.step_calls.update(i, v0.step_calls[i] + (k + 1) as nat));
                assert(self@.prepared =~= v0.prepared.update(i, true));
                assert(self@.prepare_calls =~= v0.prepare_calls.update(i, 1));
            }
            k += 1;
        }
    }

    /// Whether any registered sub-App has signalled that it is done.
    pub fn any_done(&self) -> (r: bool)
        requires
            self.wf(),
        ensures
            self@.names.len() == 0 ==> !r,
            r ==> exists|i: int|
                0 <= i < self.subsystems().len() && call_ensures(
                    P::is_done,
                    (&self.subsystems()[i],),
                    true,
                ),
            !r ==> forall|i: int|
                0 <= i < self.subsystems().len() ==> call_ensures(
                    P::is_done,
                    (&#[trigger] self.subsystems()[i],),
                    false,
                ),
    {
        let is_done = P::is_done;
        let mut i: usize = 0;
        while i < self.physics.len()
            invariant
                self.wf(),
                0 <= i <= self.physics@.len(),
                is_done == P::is_done,
                forall|j: int| 0 <= j < i ==> call_ensures(P::is_done, (&#[trigger] self.physics@[j],), false),
            decreases self.physics.len() - i,
        {
            let done = is_done(&self.physics[i]);
            if done {
                assert(call_ensures(P::is_done, (&self.subsystems()[i as int],), true));
                return true;
            }
            i += 1;
        }
        false
    }

    /// Run the cleanup of every prepared sub-App that was not cleaned up
    /// yet; a sub-App that was never prepared is not cleaned up, and none is
    /// cleaned up twice.
    pub fn cleanup_all(&mut self)
        requires
            old(self).wf(),
        ensures
            final(self).wf(),
            final(self)@ == after_cleanup(old(self)@),
    {
        let ghost start = self@;
        let n = self.physics.len();
        let mut i: usize = 0;
        while i < n
            invariant
                self.wf(),
                n == self.physics@.len(),
                0 <= i <= n,
                self@.names == start.names,
                self@.prepared == start.prepared,
                self@.prepare_calls == start.prepare_calls,
                self@.step_calls == start.step_calls,
                forall|j: int| 0 <= j < i ==> self@.cleaned[j] == start.prepared[j],
                forall|j: int| i <= j < n ==> self@.cleaned[j] == start.cleaned[j],
                forall|j: int|
                    0 <= j < n ==> #[trigger] self@.cleanup_calls[j] == (if j < i && start.prepared[j]
                        && !start.cleaned[j] {
                        start.cleanup_calls[j] + 1
                    } else {
                        start.cleanup_calls[j]
                    }),
            decreases n - i,
        {
            if self.prepared[i] && !self.cleaned[i] {
                self.physics[i].cleanup();
                self.cleaned.set(i, true);
                proof {
                    let ghost before = self.cleanup_calls@;
                    self.cleanup_calls@ = self.cleanup_calls@.update(i as int, before[i as int] + 1);
                }
            }
            i += 1;
        }
        proof {
            let after = after_cleanup(start);
            assert(self@.cleaned =~= after.cleaned);
            assert(self@.cleanup_calls =~= after.cleanup_calls);
        }
    }
}

/// Every registered sub-App is prepared at most once and before its first
/// step, and cleaned up at most once and only after being prepared.
pub proof fn law_lifecycle_calls_are_bounded<P: Physics>(s: &SubApps<P>, i: int)
    requires
        s.wf(),
        0 <= i < s@.names.len(),
    ensures
        s@.prepare_calls[i] <= 1,
        s@.cleanup_calls[i] <= s@.prepare_calls[i],
        s@.step_calls[i] > 0 ==> s@.prepare_calls[i] == 1,
{
    assert(s@.cleaned[i] ==> s@.prepared[i]);
}

/// A second `cleanup_all` changes nothing: every sub-App is cleaned up at
/// most once however often the parent asks.
pub proof fn law_cleanup_is_idempotent(v: SubAppsView)
    requires
        lifecycle_holds(v),
    ensures
        after_cleanup(after_cleanup(v)) == after_cleanup(v),
{
    let once = after_cleanup(v);
    let twice = after_cleanup(once);
    assert(twice.cleanup_calls =~= once.cleanup_calls);
}

/// Namespaces stay distinct: two registrations never share one.
pub proof fn law_namespaces_are_distinct<P: Physics>(s: &SubApps<P>, i: int, j: int)
    requires
        s.wf(),
        0 <= i < s@.names.len(),
        0 <= j < s@.names.len(),
        i != j,
    ensures
        s@.names[i] != s@.names[j],
{
    if i > j {
        assert(s@.names[j] != s@.names[i]);
    }
}

} // verus!
