//! Plugin registration rules: a unique plugin registers once, a plugin's
//! dependencies must be registered before it, and every required capability
//! tag must have a provider once registration is complete.
//!
//! The registry records what the application's plugins declared; building a
//! plugin into the application is the caller's business.

use crate::text::{join, owned, str_equal};
use std::any::TypeId;
use vstd::prelude::*;

verus! {

#[verifier::external_type_specification]
#[verifier::external_body]
pub struct ExTypeId(TypeId);

/// `<TypeId as Clone>::clone`: `TypeId` is `Copy`, so a clone is the same
/// value.
pub assume_specification[ <TypeId as Clone>::clone ](t: &TypeId) -> (r: TypeId)
    ensures
        r == *t,
;

/// `<TypeId as PartialEq>::eq`: two type identifiers are equal exactly when
/// they are the same value.
#[verifier::external_body]
fn same_type_id(a: &TypeId, b: &TypeId) -> (r: bool)
    ensures
        r == (*a == *b),
{
    *a == *b
}

/// `<TypeId as Debug>::fmt`: the debug form of a type identifier, which
/// depends on the compiler and is not stated.
#[verifier::external_body]
fn type_id_text(t: &TypeId) -> String {
    format!("{:?}", t)
}

/// Collected TOML snippets from all plugins that provide a default config.
pub struct ConfigSnippets {
    /// The accumulated TOML snippet strings, one per plugin.
    pub snippets: Vec<String>,
}

/// Marker resource: when present, the application prints its config
/// snippets and exits instead of running.
pub struct GenerateConfigFlag;

/// Resource storing stage name strings, used for validation and graph export.
pub struct StageNames(pub &'static [&'static str]);

// ─── Errors ─────────────────────────────────────────────────────────────────

/// A missing plugin dependency.
#[derive(Debug, Clone, PartialEq, Eq)]
pub struct MissingPluginDependency {
    /// The type identifier the dependent plugin listed.
    pub type_id: TypeId,
    /// Human-readable dependency name, when the dependent plugin gave one.
    pub name: Option<String>,
}

/// Mathematical model of a [`MissingPluginDependency`].
pub struct MissingDependencyView {
    pub type_id: TypeId,
    pub name: Option<Seq<char>>,
}

impl View for MissingPluginDependency {
    type V = MissingDependencyView;

    open spec fn view(&self) -> MissingDependencyView {
        MissingDependencyView {
            type_id: self.type_id,
            name: match self.name {
                Some(n) => Some(n@),
                None => None,
            },
        }
    }
}

/// A required capability tag that has no registered provider.
#[derive(Debug, Clone, PartialEq, Eq)]
pub struct MissingCapability {
    /// The capability tag that was required.
    pub capability: String,
    /// The plugin that required it.
    pub requiring_plugin: String,
}

/// Mathematical model of a [`MissingCapability`]: the tag and the plugin that
/// required it.
pub struct MissingCapabilityView {
    pub capability: Seq<char>,
    pub requiring_plugin: Seq<char>,
}

impl View for MissingCapability {
    type V = MissingCapabilityView;

    open spec fn view(&self) -> MissingCapabilityView {
        MissingCapabilityView {
            capability: self.capability@,
            requiring_plugin: self.requiring_plugin@,
        }
    }
}

/// Error returned by fallible app assembly and lifecycle validation.
#[derive(Debug, Clone, PartialEq, Eq)]
pub enum AppError {
    /// A unique plugin was registered more than once.
    DuplicatePlugin {
        /// The duplicate plugin's human-readable name.
        plugin_name: String,
    },
    /// Dependencies of a plugin were not registered before it.
    MissingDependencies {
        /// The plugin that could not be registered.
        plugin_name: String,
        /// Dependencies that were not registered before this plugin.
        missing: Vec<MissingPluginDependency>,
    },
    /// Required capability tags have no provider.
    MissingCapabilities {
        /// Required capability tags with the plugins that required them.
        missing: Vec<MissingCapability>,
    },
}

/// Mathematical model of an [`AppError`].
pub enum AppFault {
    DuplicatePlugin { plugin_name: Seq<char> },
    MissingDependencies { plugin_name: Seq<char>, missing: Seq<MissingDependencyView> },
    MissingCapabilities { missing: Seq<MissingCapabilityView> },
}

impl View for AppError {
    type V = AppFault;

    open spec fn view(&self) -> AppFault {
        match self {
            AppError::DuplicatePlugin { plugin_name } => AppFault::DuplicatePlugin {
                plugin_name: plugin_name@,
            },
            AppError::MissingDependencies { plugin_name, missing } => AppFault::MissingDependencies {
                plugin_name: plugin_name@,
                missing: missing@.map_values(|d: MissingPluginDependency| d@),
            },
            AppError::MissingCapabilities { missing } => AppFault::MissingCapabilities {
                missing: missing@.map_values(|c: MissingCapability| c@),
            },
        }
    }
}

// ─── Texts ──────────────────────────────────────────────────────────────────

/// The text of a missing capability.
pub open spec fn capability_text(c: MissingCapabilityView) -> Seq<char> {
    "capability `"@ + c.capability + "` required by `"@ + c.requiring_plugin + "`"@
}

/// `items` separated by `", "`.
pub open spec fn comma_joined(items: Seq<Seq<char>>) -> Seq<char>
    decreases items.len(),
{
    if items.len() == 0 {
        Seq::empty()
    } else if items.len() == 1 {
        items[0]
    } else {
        comma_joined(items.drop_last()) + ", "@ + items.last()
    }
}

/// The names of missing dependencies, when every one of them has a name.
pub open spec fn dependency_names_of(missing: Seq<MissingDependencyView>) -> Seq<Seq<char>> {
    missing.map_values(|d: MissingDependencyView| d.name->0)
}

/// Every missing dependency carries a name.
pub open spec fn all_named(missing: Seq<MissingDependencyView>) -> bool {
    forall|i: int| 0 <= i < missing.len() ==> (#[trigger] missing[i]).name is Some
}

/// The text of an application error. A dependency without a name is shown
/// by its type identifier's debug form, which is not stated; the text is
/// stated for dependencies that all carry names.
pub open spec fn app_error_text(e: AppFault) -> Seq<char> {
    match e {
        AppFault::DuplicatePlugin { plugin_name } => "Error adding plugin "@ + plugin_name
            + ": plugin was already added in application"@,
        AppFault::MissingDependencies { plugin_name, missing } => "Plugin `"@ + plugin_name
            + "` is missing required dependencies: "@ + comma_joined(dependency_names_of(missing)),
        AppFault::MissingCapabilities { missing } => "Missing capability contracts: "@ + comma_joined(
            missing.map_values(|c: MissingCapabilityView| capability_text(c)),
        ) + ". Add plugin(s) that provide the required capabilities."@,
    }
}

impl MissingCapability {
    /// The diagnostic text of this missing capability.
    pub fn message(&self) -> (s: String)
        ensures
            s@ == capability_text(self@),
    {
        let s = join(owned("capability `"), self.capability.as_str());
        let s = join(s, "` required by `");
        let s = join(s, self.requiring_plugin.as_str());
        join(s, "`")
    }
}

impl MissingPluginDependency {
    /// The diagnostic text of this dependency: its name, or else the debug
    /// form of its type identifier (not stated).
    pub fn message(&self) -> (s: String)
        ensures
            self@.name matches Some(n) ==> s@ == n,
    {
        match &self.name {
            Some(name) => owned(name.as_str()),
            None => type_id_text(&self.type_id),
        }
    }
}

/// `texts` are texts of the missing dependencies `missing`, one each in
/// order: a named dependency's text is its name; an unnamed one's is the
/// debug form of its type identifier, which is not stated.
pub open spec fn dependency_texts(missing: Seq<MissingDependencyView>, texts: Seq<Seq<char>>) -> bool {
    &&& texts.len() == missing.len()
    &&& forall|i: int|
        0 <= i < missing.len() && (#[trigger] missing[i]).name is Some ==> texts[i] == missing[i].name->0
}

/// The missing dependencies joined by `", "`.
fn format_missing_dependencies(missing: &Vec<MissingPluginDependency>) -> (s: String)
    ensures
        all_named(missing@.map_values(|d: MissingPluginDependency| d@)) ==> s@ == comma_joined(
            dependency_names_of(missing@.map_values(|d: MissingPluginDependency| d@)),
        ),
        exists|texts: Seq<Seq<char>>|
            dependency_texts(missing@.map_values(|d: MissingPluginDependency| d@), texts) && s@
                == #[trigger] comma_joined(texts),
{
    let ghost views = missing@.map_values(|d: MissingPluginDependency| d@);
    let ghost mut texts: Seq<Seq<char>> = Seq::empty();
    let mut s = owned("");
    proof {
        reveal_strlit("");
        assert(s@ =~= Seq::<char>::empty());
        assert(dependency_names_of(views.take(0)).len() == 0);
    }
    let mut i: usize = 0;
    while i < missing.len()
        invariant
            0 <= i <= missing.len(),
            views == missing@.map_values(|d: MissingPluginDependency| d@),
            all_named(views) ==> s@ == comma_joined(dependency_names_of(views.take(i as int))),
            dependency_texts(views.take(i as int), texts),
            s@ == comma_joined(texts),
        decreases missing.len() - i,
    {
        if i > 0 {
            s = join(s, ", ");
        }
        let part = missing[i].message();
        s = join(s, part.as_str());
        proof {
            let old_texts = texts;
            texts = texts.push(part@);
            assert(texts.drop_last() =~= old_texts);
            assert(s@ =~= comma_joined(texts));
            assert(views.take(i + 1).drop_last() =~= views.take(i as int));
            assert forall|j: int|
                0 <= j < i + 1 && (#[trigger] views.take(i + 1)[j]).name is Some implies texts[j]
                == views.take(i + 1)[j].name->0 by {
                if j < i {
                    assert(views.take(i + 1)[j] == views.take(i as int)[j]);
                }
            }
            let names = dependency_names_of(views.take(i + 1));
            assert(names.drop_last() =~= dependency_names_of(views.take(i as int)));
            if all_named(views) {
                assert(views[i as int].name is Some);
                assert(names.last() == views[i as int].name->0);
                if i == 0 {
                    assert(s@ =~= comma_joined(names));
                } else {
                    assert(s@ =~= comma_joined(names));
                }
            }
        }
        i += 1;
    }
    assert(views.take(missing.len() as int) =~= views);
    assert(dependency_texts(views, texts) && s@ == comma_joined(texts));
    s
}

/// The missing capabilities joined by `", "`.
fn format_missing_capabilities(missing: &Vec<MissingCapability>) -> (s: String)
    ensures
        s@ == comma_joined(
            missing@.map_values(|c: MissingCapability| c@).map_values(
                |c: MissingCapabilityView| capability_text(c),
            ),
        ),
{
    let ghost texts = missing@.map_values(|c: MissingCapability| c@).map_values(
        |c: MissingCapabilityView| capability_text(c),
    );
    let mut s = owned("");
    proof {
        reveal_strlit("");
        assert(s@ =~= Seq::<char>::empty());
        assert(texts.take(0).len() == 0);
    }
    let mut i: usize = 0;
    while i < missing.len()
        invariant
            0 <= i <= missing.len(),
            texts == missing@.map_values(|c: MissingCapability| c@).map_values(
                |c: MissingCapabilityView| capability_text(c),
            ),
            s@ == comma_joined(texts.take(i as int)),
        decreases missing.len() - i,
    {
        if i > 0 {
            s = join(s, ", ");
        }
        let part = missing[i].message();
        s = join(s, part.as_str());
        proof {
            assert(texts.take(i + 1).drop_last() =~= texts.take(i as int));
            assert(s@ =~= comma_joined(texts.take(i + 1)));
        }
        i += 1;
    }
    assert(texts.take(missing.len() as int) =~= texts);
    s
}

/// The text a failed registration panics with: the duplicate wording for a
/// duplicate plugin, and a shorter summary than [`app_error_text`] for the
/// other two kinds.
pub open spec fn app_panic_text(e: AppFault) -> Seq<char> {
    match e {
        AppFault::DuplicatePlugin { plugin_name } => app_error_text(e),
        AppFault::MissingDependencies { plugin_name, missing } => "Missing plugin dependencies for `"@
            + plugin_name + "`: "@ + comma_joined(dependency_names_of(missing)),
        AppFault::MissingCapabilities { missing } => "Missing capabilities: "@ + comma_joined(
            missing.map_values(|c: MissingCapabilityView| capability_text(c)),
        ),
    }
}

impl AppError {
    /// The diagnostic text of this error.
    pub fn message(&self) -> (s: String)
        ensures
            self@ matches AppFault::MissingDependencies { missing, .. } ==> (all_named(missing)
                ==> s@ == app_error_text(self@)),
            self@ matches AppFault::MissingDependencies { plugin_name, missing } ==> exists|
                texts: Seq<Seq<char>>,
            |
                dependency_texts(missing, texts) && s@ == "Plugin `"@ + plugin_name
                    + "` is missing required dependencies: "@ + #[trigger] comma_joined(texts),
            !(self@ is MissingDependencies) ==> s@ == app_error_text(self@),
    {
        match self {
            AppError::DuplicatePlugin { plugin_name } => {
                let s = join(owned("Error adding plugin "), plugin_name.as_str());
                join(s, ": plugin was already added in application")
            },
            AppError::MissingDependencies { plugin_name, missing } => {
                let s = join(owned("Plugin `"), plugin_name.as_str());
                let s = join(s, "` is missing required dependencies: ");
                join(s, format_missing_dependencies(missing).as_str())
            },
            AppError::MissingCapabilities { missing } => {
                let s = join(owned("Missing capability contracts: "), format_missing_capabilities(missing).as_str());
                join(s, ". Add plugin(s) that provide the required capabilities.")
            },
        }
    }

    /// The text a failed registration panics with.
    pub fn panic_message(&self) -> (s: String)
        ensures
            self@ matches AppFault::MissingDependencies { missing, .. } ==> (all_named(missing)
                ==> s@ == app_panic_text(self@)),
            self@ matches AppFault::MissingDependencies { plugin_name, missing } ==> exists|
                texts: Seq<Seq<char>>,
            |
                dependency_texts(missing, texts) && s@ == "Missing plugin dependencies for `"@
                    + plugin_name + "`: "@ + #[trigger] comma_joined(texts),
            !(self@ is MissingDependencies) ==> s@ == app_panic_text(self@),
    {
        match self {
            AppError::DuplicatePlugin { .. } => self.message(),
            AppError::MissingDependencies { plugin_name, missing } => {
                let s = join(owned("Missing plugin dependencies for `"), plugin_name.as_str());
                let s = join(s, "`: ");
                join(s, format_missing_dependencies(missing).as_str())
            },
            AppError::MissingCapabilities { missing } => {
                join(owned("Missing capabilities: "), format_missing_capabilities(missing).as_str())
            },
        }
    }
}

// ─── The registry ───────────────────────────────────────────────────────────

/// The dependencies among `deps` (with names `names`, by position) that are
/// not among the registered type identifiers `known`, in the order listed.
pub open spec fn missing_dependencies(
    known: Seq<TypeId>,
    deps: Seq<TypeId>,
    names: Seq<Seq<char>>,
) -> Seq<MissingDependencyView>
    decreases deps.len(),
{
    if deps.len() == 0 {
        Seq::empty()
    } else {
        let i = deps.len() - 1;
        let prev = missing_dependencies(known, deps.drop_last(), names);
        if known.contains(deps[i]) {
            prev
        } else {
            prev.push(
                MissingDependencyView {
                    type_id: deps[i],
                    name: if i < names.len() {
                        Some(names[i])
                    } else {
                        None
                    },
                },
            )
        }
    }
}

/// The requirements among `required` (tag, requiring plugin) whose tag is
/// not among `provided`, in the order they were required.
pub open spec fn missing_capabilities(
    provided: Seq<Seq<char>>,
    required: Seq<(Seq<char>, Seq<char>)>,
) -> Seq<MissingCapabilityView>
    decreases required.len(),
{
    if required.len() == 0 {
        Seq::empty()
    } else {
        let prev = missing_capabilities(provided, required.drop_last());
        let (cap, plugin) = required.last();
        if provided.contains(cap) {
            prev
        } else {
            prev.push(MissingCapabilityView { capability: cap, requiring_plugin: plugin })
        }
    }
}

/// Mathematical model of a [`PluginRegistry`]: the names and type
/// identifiers of registered plugins, the capability tags provided, the
/// capability requirements (tag, requiring plugin), and the config snippets,
/// each in registration order.
pub struct RegistryView {
    pub names: Seq<Seq<char>>,
    pub type_ids: Seq<TypeId>,
    pub provided: Seq<Seq<char>>,
    pub required: Seq<(Seq<char>, Seq<char>)>,
    pub snippets: Seq<Seq<char>>,
}

/// Why registering plugin `name` (unique or not, with dependencies `deps`
/// named `dep_names`) into `v` is refused, if it is: a unique plugin whose
/// name is registered is a duplicate; otherwise every dependency must be
/// registered already.
pub open spec fn registration_fault(
    v: RegistryView,
    name: Seq<char>,
    unique: bool,
    deps: Seq<TypeId>,
    dep_names: Seq<Seq<char>>,
) -> Option<AppFault> {
    if unique && v.names.contains(name) {
        Some(AppFault::DuplicatePlugin { plugin_name: name })
    } else if missing_dependencies(v.type_ids, deps, dep_names).len() > 0 {
        Some(
            AppFault::MissingDependencies {
                plugin_name: name,
                missing: missing_dependencies(v.type_ids, deps, dep_names),
            },
        )
    } else {
        None
    }
}

/// The views of a list of strings.
pub open spec fn strings_view(v: Seq<String>) -> Seq<Seq<char>> {
    v.map_values(|s: String| s@)
}

/// The views of a list of string slices.
pub open spec fn strs_view(v: Seq<&str>) -> Seq<Seq<char>> {
    v.map_values(|s: &str| s@)
}

/// The views of a list of strings grow by the view of a pushed string.
pub proof fn lemma_strings_view_push(v: Seq<String>, s: String)
    ensures
        strings_view(v.push(s)) == strings_view(v).push(s@),
{
    assert(strings_view(v.push(s)) =~= strings_view(v).push(s@));
}

/// One more slice taken from a list of string slices adds its view.
proof fn lemma_strs_take_succ(v: Seq<&str>, i: int)
    requires
        0 <= i < v.len(),
    ensures
        strs_view(v).take(i + 1) == strs_view(v).take(i).push(v[i]@),
{
    assert(strs_view(v).take(i + 1) =~= strs_view(v).take(i).push(v[i]@));
}

/// The bookkeeping of an application's plugin registrations.
pub struct PluginRegistry {
    plugin_names: Vec<String>,
    plugin_type_ids: Vec<TypeId>,
    provided_capabilities: Vec<String>,
    required_capabilities: Vec<(String, String)>,
    config_snippets: Vec<String>,
}

impl View for PluginRegistry {
    type V = RegistryView;

    closed spec fn view(&self) -> RegistryView {
        RegistryView {
            names: strings_view(self.plugin_names@),
            type_ids: self.plugin_type_ids@,
            provided: strings_view(self.provided_capabilities@),
            required: self.required_capabilities@.map_values(|p: (String, String)| (p.0@, p.1@)),
            snippets: strings_view(self.config_snippets@),
        }
    }
}

/// Whether `name` is among `names`.
fn contains_name(names: &Vec<String>, name: &str) -> (r: bool)
    ensures
        r == strings_view(names@).contains(name@),
{
    let mut i: usize = 0;
    while i < names.len()
        invariant
            0 <= i <= names.len(),
            forall|j: int| 0 <= j < i ==> names@[j]@ != name@,
        decreases names.len() - i,
    {
        if str_equal(names[i].as_str(), name) {
            assert(strings_view(names@)[i as int] == name@);
            return true;
        }
        i += 1;
    }
    proof {
        if strings_view(names@).contains(name@) {
            let j = choose|j: int| 0 <= j < names@.len() && strings_view(names@)[j] == name@;
            assert(names@[j]@ == name@);
        }
    }
    false
}

/// Whether `t` is among `ids`.
fn contains_type_id(ids: &Vec<TypeId>, t: &TypeId) -> (r: bool)
    ensures
        r == ids@.contains(*t),
{
    let mut i: usize = 0;
    while i < ids.len()
        invariant
            0 <= i <= ids.len(),
            forall|j: int| 0 <= j < i ==> ids@[j] != *t,
        decreases ids.len() - i,
    {
        if same_type_id(&ids[i], t) {
            return true;
        }
        i += 1;
    }
    false
}

impl PluginRegistry {
    /// An empty registry.
    pub fn new() -> (r: Self)
        ensures
            r@ == (RegistryView {
                names: Seq::empty(),
                type_ids: Seq::empty(),
                provided: Seq::empty(),
                required: Seq::empty(),
                snippets: Seq::empty(),
            }),
    {
        let r = PluginRegistry {
            plugin_names: Vec::new(),
            plugin_type_ids: Vec::new(),
            provided_capabilities: Vec::new(),
            required_capabilities: Vec::new(),
            config_snippets: Vec::new(),
        };
        assert(r@.names =~= Seq::empty());
        assert(r@.provided =~= Seq::empty());
        assert(r@.required =~= Seq::empty());
        assert(r@.snippets =~= Seq::empty());
        r
    }

    /// The dependencies among `deps` not registered yet, each with its name
    /// from `dep_names` (by position) when one was given.
    fn missing_for(&self, deps: &[TypeId], dep_names: &[&str]) -> (m: Vec<MissingPluginDependency>)
        ensures
            m@.map_values(|d: MissingPluginDependency| d@) == missing_dependencies(
                self@.type_ids,
                deps@,
                strs_view(dep_names@),
            ),
    {
        let ghost names = strs_view(dep_names@);
        let mut missing: Vec<MissingPluginDependency> = Vec::new();
        let mut i: usize = 0;
        while i < deps.len()
            invariant
                0 <= i <= deps.len(),
                names == strs_view(dep_names@),
                missing@.map_values(|d: MissingPluginDependency| d@) == missing_dependencies(
                    self@.type_ids,
                    deps@.take(i as int),
                    names,
                ),
            decreases deps.len() - i,
        {
            let dep = &deps[i];
            proof {
                assert(deps@.take(i + 1).drop_last() =~= deps@.take(i as int));
                assert(deps@.take(i + 1)[i as int] == deps@[i as int]);
            }
            if !contains_type_id(&self.plugin_type_ids, dep) {
                let name = if i < dep_names.len() {
                    Some(owned(dep_names[i]))
                } else {
                    None
                };
                missing.push(MissingPluginDependency { type_id: *dep, name });
                proof {
                    assert(missing@.map_values(|d: MissingPluginDependency| d@) =~= missing_dependencies(
                        self@.type_ids,
                        deps@.take(i + 1),
                        names,
                    ));
                }
            }
            i += 1;
        }
        assert(deps@.take(deps.len() as int) =~= deps@);
        missing
    }

    /// Register plugin `name`, before it is built: a unique plugin already
    /// registered under this name is refused, as is a plugin whose
    /// dependencies are not all registered. On success the plugin's name and
    /// type identifier are recorded, so plugins it adds while building see
    /// it as registered.
    pub fn begin_plugin(
        &mut self,
        name: &str,
        unique: bool,
        type_id: TypeId,
        dependencies: &[TypeId],
        dependency_names: &[&str],
    ) -> (r: Result<(), AppError>)
        ensures
            ({
                let fault = registration_fault(
                    old(self)@,
                    name@,
                    unique,
                    dependencies@,
                    strs_view(dependency_names@),
                );
                &&& r is Err <==> fault is Some
                &&& r matches Err(e) ==> fault == Some(e@) && final(self)@ == old(self)@
                &&& r is Ok ==> final(self)@ == (RegistryView {
                    names: old(self)@.names.push(name@),
                    type_ids: old(self)@.type_ids.push(type_id),
                    ..old(self)@
                })
            }),
    {
        if unique && contains_name(&self.plugin_names, name) {
            return Err(AppError::DuplicatePlugin { plugin_name: owned(name) });
        }
        let missing = self.missing_for(dependencies, dependency_names);
        if missing.len() > 0 {
            return Err(AppError::MissingDependencies { plugin_name: owned(name), missing });
        }
        self.plugin_type_ids.push(type_id);
        self.plugin_names.push(owned(name));
        proof {
            assert(self@.names =~= old(self)@.names.push(name@));
        }
        Ok(())
    }

    /// Record what plugin `plugin_name` declared once it is built: its config
    /// snippet, if any, the capability tags it provides, and those it
    /// requires.
    pub fn finish_plugin(
        &mut self,
        plugin_name: &str,
        default_config: Option<&str>,
        provided_tags: &[&str],
        required_tags: &[&str],
    )
        ensures
            final(self)@ == (RegistryView {
                snippets: match default_config {
                    Some(c) => old(self)@.snippets.push(c@),
                    None => old(self)@.snippets,
                },
                provided: old(self)@.provided + strs_view(provided_tags@),
                required: old(self)@.required + strs_view(required_tags@).map_values(
                    |c: Seq<char>| (c, plugin_name@),
                ),
                ..old(self)@
            }),
    {
        match default_config {
            Some(c) => {
                let ghost prev = self.config_snippets@;
                let item = owned(c);
                self.config_snippets.push(item);
                proof {
                    lemma_strings_view_push(prev, item);
                }
            },
            None => {},
        }
        let ghost snippets_done = self@;
        let mut i: usize = 0;
        while i < provided_tags.len()
            invariant
                0 <= i <= provided_tags.len(),
                self@ == (RegistryView {
                    provided: snippets_done.provided + strs_view(provided_tags@).take(i as int),
                    ..snippets_done
                }),
            decreases provided_tags.len() - i,
        {
            let ghost prev = self.provided_capabilities@;
            let tag = owned(provided_tags[i]);
            self.provided_capabilities.push(tag);
            proof {
                lemma_strings_view_push(prev, tag);
                lemma_strs_take_succ(provided_tags@, i as int);
                assert(self@.provided =~= snippets_done.provided + strs_view(provided_tags@).take(i + 1));
            }
            i += 1;
        }
        assert(strs_view(provided_tags@).take(provided_tags.len() as int) =~= strs_view(provided_tags@));
        let ghost provided_done = self@;
        let mut j: usize = 0;
        while j < required_tags.len()
            invariant
                0 <= j <= required_tags.len(),
                self@ == (RegistryView {
                    required: provided_done.required + strs_view(required_tags@).take(j as int).map_values(
                        |c: Seq<char>| (c, plugin_name@),
                    ),
                    ..provided_done
                }),
            decreases required_tags.len() - j,
        {
            let ghost prev = self.required_capabilities@;
            let pair = (owned(required_tags[j]), owned(plugin_name));
            self.required_capabilities.push(pair);
            proof {
                assert(self.required_capabilities@.map_values(|p: (String, String)| (p.0@, p.1@))
                    =~= prev.map_values(|p: (String, String)| (p.0@, p.1@)).push((pair.0@, pair.1@)));
                lemma_strs_take_succ(required_tags@, j as int);
                assert(strs_view(required_tags@).take(j + 1).map_values(|c: Seq<char>| (c, plugin_name@))
                    =~= strs_view(required_tags@).take(j as int).map_values(
                    |c: Seq<char>| (c, plugin_name@),
                ).push((required_tags@[j as int]@, plugin_name@)));
                assert(self@.required =~= provided_done.required + strs_view(required_tags@).take(
                    j + 1,
                ).map_values(|c: Seq<char>| (c, plugin_name@)));
            }
            j += 1;
        }
        assert(strs_view(required_tags@).take(required_tags.len() as int) =~= strs_view(required_tags@));
    }

    /// Check that every required capability tag has at least one provider;
    /// otherwise report every unprovided requirement, in the order required.
    pub fn validate_capability_contracts_result(&self) -> (r: Result<(), AppError>)
        ensures
            ({
                let missing = missing_capabilities(self@.provided, self@.required);
                &&& r is Ok <==> missing.len() == 0
                &&& r matches Err(e) ==> e@ == AppFault::MissingCapabilities { missing }
            }),
    {
        let ghost required = self@.required;
        let mut missing: Vec<MissingCapability> = Vec::new();
        let mut i: usize = 0;
        while i < self.required_capabilities.len()
            invariant
                0 <= i <= self.required_capabilities.len(),
                required == self@.required,
                missing@.map_values(|c: MissingCapability| c@) == missing_capabilities(
                    self@.provided,
                    required.take(i as int),
                ),
            decreases self.required_capabilities.len() - i,
        {
            let pair = &self.required_capabilities[i];
            proof {
                assert(required.take(i + 1).drop_last() =~= required.take(i as int));
                assert(required.take(i + 1).last() == (pair.0@, pair.1@));
            }
            if !contains_name(&self.provided_capabilities, pair.0.as_str()) {
                missing.push(
                    MissingCapability {
                        capability: owned(pair.0.as_str()),
                        requiring_plugin: owned(pair.1.as_str()),
                    },
                );
                proof {
                    assert(missing@.map_values(|c: MissingCapability| c@) =~= missing_capabilities(
                        self@.provided,
                        required.take(i + 1),
                    ));
                }
            }
            i += 1;
        }
        assert(required.take(self.required_capabilities.len() as int) =~= required);
        if missing.len() == 0 {
            Ok(())
        } else {
            Err(AppError::MissingCapabilities { missing })
        }
    }

    /// The config snippets collected so far, in registration order.
    pub fn config_snippets(&self) -> (c: ConfigSnippets)
        ensures
            strings_view(c.snippets@) == self@.snippets,
    {
        let mut snippets: Vec<String> = Vec::new();
        let mut i: usize = 0;
        while i < self.config_snippets.len()
            invariant
                0 <= i <= self.config_snippets.len(),
                strings_view(snippets@) == strings_view(self.config_snippets@).take(i as int),
            decreases self.config_snippets.len() - i,
        {
            let ghost prev = snippets@;
            let item = owned(self.config_snippets[i].as_str());
            snippets.push(item);
            proof {
                lemma_strings_view_push(prev, item);
                assert(strings_view(self.config_snippets@).take(i + 1) =~= strings_view(self.config_snippets@).take(i as int).push(self.config_snippets@[i as int]@));
                assert(strings_view(snippets@) =~= strings_view(self.config_snippets@).take(i + 1));
            }
            i += 1;
        }
        assert(strings_view(self.config_snippets@).take(self.config_snippets.len() as int)
            =~= strings_view(self.config_snippets@));
        ConfigSnippets { snippets }
    }
}

/// A registered unique plugin cannot be registered again under its name,
/// whatever its dependencies then are.
pub proof fn law_unique_plugin_registers_once(
    v: RegistryView,
    name: Seq<char>,
    type_id: TypeId,
    deps: Seq<TypeId>,
    dep_names: Seq<Seq<char>>,
    later_deps: Seq<TypeId>,
    later_names: Seq<Seq<char>>,
)
    requires
        registration_fault(v, name, true, deps, dep_names) is None,
    ensures
        registration_fault(
            RegistryView { names: v.names.push(name), type_ids: v.type_ids.push(type_id), ..v },
            name,
            true,
            later_deps,
            later_names,
        ) == Some(AppFault::DuplicatePlugin { plugin_name: name }),
{
    assert(v.names.push(name)[v.names.len() as int] == name);
}

/// A dependency is reported missing exactly when it is not registered: every
/// reported dependency is unregistered, and a list of registered dependencies
/// reports nothing.
pub proof fn law_missing_dependencies_are_unregistered(
    known: Seq<TypeId>,
    deps: Seq<TypeId>,
    names: Seq<Seq<char>>,
)
    ensures
        forall|i: int|
            0 <= i < missing_dependencies(known, deps, names).len() ==> !known.contains(
                #[trigger] missing_dependencies(known, deps, names)[i].type_id,
            ),
        (forall|j: int| 0 <= j < deps.len() ==> known.contains(#[trigger] deps[j]))
            ==> missing_dependencies(known, deps, names).len() == 0,
        (exists|j: int| 0 <= j < deps.len() && !known.contains(#[trigger] deps[j]))
            ==> missing_dependencies(known, deps, names).len() > 0,
    decreases deps.len(),
{
    if deps.len() > 0 {
        let prefix = deps.drop_last();
        law_missing_dependencies_are_unregistered(known, prefix, names);
        let prev = missing_dependencies(known, prefix, names);
        let m = missing_dependencies(known, deps, names);
        assert forall|i: int| 0 <= i < m.len() implies !known.contains(#[trigger] m[i].type_id) by {
            if i < prev.len() {
                assert(m[i] == prev[i]);
            }
        }
        if forall|j: int| 0 <= j < deps.len() ==> known.contains(#[trigger] deps[j]) {
            assert forall|j: int| 0 <= j < prefix.len() implies known.contains(#[trigger] prefix[j]) by {
                assert(prefix[j] == deps[j]);
            }
            assert(known.contains(deps[deps.len() - 1]));
        }
        if exists|j: int| 0 <= j < deps.len() && !known.contains(#[trigger] deps[j]) {
            let j = choose|j: int| 0 <= j < deps.len() && !known.contains(#[trigger] deps[j]);
            if j < deps.len() - 1 {
                assert(prefix[j] == deps[j]);
                assert(m.len() >= prev.len());
            }
        }
    }
}

/// Once a plugin is registered, a later plugin depending on it alone is not
/// refused for a missing dependency.
pub proof fn law_registered_dependency_is_satisfied(
    v: RegistryView,
    type_id: TypeId,
    later_names: Seq<Seq<char>>,
)
    ensures
        missing_dependencies(v.type_ids.push(type_id), seq![type_id], later_names).len() == 0,
{
    let known = v.type_ids.push(type_id);
    assert(known[v.type_ids.len() as int] == type_id);
    assert(known.contains(type_id));
    assert(seq![type_id].drop_last() =~= Seq::<TypeId>::empty());
    reveal_with_fuel(missing_dependencies, 2);
}

/// Capability contracts are checked once all plugins are registered, so the
/// order of providers and requirers does not matter: a requirement is
/// reported exactly when its tag has no provider.
pub proof fn law_unprovided_requirements_are_reported(
    provided: Seq<Seq<char>>,
    required: Seq<(Seq<char>, Seq<char>)>,
)
    ensures
        forall|i: int|
            0 <= i < missing_capabilities(provided, required).len() ==> !provided.contains(
                #[trigger] missing_capabilities(provided, required)[i].capability,
            ),
        missing_capabilities(provided, required).len() == 0 <==> (forall|j: int|
            0 <= j < required.len() ==> provided.contains(#[trigger] required[j].0)),
    decreases required.len(),
{
    if required.len() > 0 {
        let prefix = required.drop_last();
        law_unprovided_requirements_are_reported(provided, prefix);
        let prev = missing_capabilities(provided, prefix);
        let m = missing_capabilities(provided, required);
        assert forall|i: int| 0 <= i < m.len() implies !provided.contains(
            #[trigger] m[i].capability,
        ) by {
            if i < prev.len() {
                assert(m[i] == prev[i]);
            }
        }
        if forall|j: int| 0 <= j < required.len() ==> provided.contains(#[trigger] required[j].0) {
            assert forall|j: int| 0 <= j < prefix.len() implies provided.contains(
                #[trigger] prefix[j].0,
            ) by {
                assert(prefix[j] == required[j]);
            }
            assert(provided.contains(required[required.len() - 1].0));
        }
        if m.len() == 0 {
            assert(provided.contains(required.last().0));
            assert forall|j: int| 0 <= j < required.len() implies provided.contains(
                #[trigger] required[j].0,
            ) by {
                if j < prefix.len() {
                    assert(prefix[j] == required[j]);
                }
            }
        }
    }
}

// ─── Plugin groups ──────────────────────────────────────────────────────────

/// Mathematical model of a [`PluginGroupBuilder`]: the plugins kept, in the
/// order they were added, and the plugin types disabled so far.
pub struct PluginGroupView<T> {
    pub plugins: Seq<T>,
    pub disabled: Set<TypeId>,
}

/// The group after adding `plugin` of type `type_id`: appended, unless its
/// type was disabled, in which case the group is unchanged.
pub open spec fn group_added<T>(g: PluginGroupView<T>, type_id: TypeId, plugin: T) -> PluginGroupView<T> {
    if g.disabled.contains(type_id) {
        g
    } else {
        PluginGroupView { plugins: g.plugins.push(plugin), disabled: g.disabled }
    }
}

/// The group after disabling plugin type `type_id`.
pub open spec fn group_disabled<T>(g: PluginGroupView<T>, type_id: TypeId) -> PluginGroupView<T> {
    PluginGroupView { plugins: g.plugins, disabled: g.disabled.insert(type_id) }
}

/// Builder for a plugin group: plugins are added in order and registered in
/// that order; a plugin whose type was disabled beforehand is skipped.
/// Each plugin is given with its type identifier.
pub struct PluginGroupBuilder<T> {
    plugins: Vec<T>,
    disabled: Vec<TypeId>,
}

/// A collection of plugins added to an application as one unit, in the
/// order its builder lists them. Implemented by the users of the library.
pub trait PluginGroup<T>: Sized {
    /// The group's plugins.
    fn build(self) -> PluginGroupBuilder<T>;
}

impl<T> View for PluginGroupBuilder<T> {
    type V = PluginGroupView<T>;

    closed spec fn view(&self) -> PluginGroupView<T> {
        PluginGroupView { plugins: self.plugins@, disabled: self.disabled@.to_set() }
    }
}

impl<T> PluginGroupBuilder<T> {
    /// An empty group with nothing disabled.
    pub fn start() -> (r: Self)
        ensures
            r@.plugins == Seq::<T>::empty(),
            r@.disabled == Set::<TypeId>::empty(),
    {
        let r = PluginGroupBuilder { plugins: Vec::new(), disabled: Vec::new() };
        assert(r@.disabled =~= Set::<TypeId>::empty());
        r
    }

    /// Whether plugin type `type_id` has been disabled.
    pub fn is_disabled(&self, type_id: &TypeId) -> (b: bool)
        ensures
            b == self@.disabled.contains(*type_id),
    {
        let mut i: usize = 0;
        while i < self.disabled.len()
            invariant
                0 <= i <= self.disabled.len(),
                forall|j: int| 0 <= j < i ==> self.disabled@[j] != *type_id,
            decreases self.disabled.len() - i,
        {
            if same_type_id(&self.disabled[i], type_id) {
                assert(self.disabled@.contains(*type_id));
                return true;
            }
            i += 1;
        }
        assert(!self.disabled@.contains(*type_id));
        false
    }

    /// Add `plugin`, of type `type_id`, to the group; skipped when that type
    /// was disabled.
    pub fn add(self, type_id: TypeId, plugin: T) -> (r: Self)
        ensures
            r@ == group_added(self@, type_id, plugin),
    {
        if self.is_disabled(&type_id) {
            return self;
        }
        let mut next = self;
        next.plugins.push(plugin);
        next
    }

    /// Disable plugin type `type_id`: later additions of that type are
    /// skipped.
    pub fn disable(self, type_id: TypeId) -> (r: Self)
        ensures
            r@ == group_disabled(self@, type_id),
    {
        let mut next = self;
        let ghost before = next.disabled@;
        next.disabled.push(type_id);
        assert(next.disabled@.to_set() =~= before.to_set().insert(type_id)) by {
            assert forall|x: TypeId| #[trigger] next.disabled@.to_set().contains(x) == before.to_set().insert(type_id).contains(x) by {
                if next.disabled@.contains(x) {
                    let k = choose|k: int| 0 <= k < next.disabled@.len() && next.disabled@[k] == x;
                    if k < before.len() {
                        assert(before[k] == x);
                    }
                }
                if before.contains(x) {
                    let k = choose|k: int| 0 <= k < before.len() && before[k] == x;
                    assert(next.disabled@[k] == x);
                }
                if x == type_id {
                    assert(next.disabled@[before.len() as int] == x);
                }
            }
        }
        next
    }

    /// The plugins kept, in the order they are to be registered.
    pub fn into_plugins(self) -> (v: Vec<T>)
        ensures
            v@ == self@.plugins,
    {
        self.plugins
    }
}

/// A plugin type disabled in a group is skipped by every later addition of
/// that type, and the plugins already kept stay as they were.
pub proof fn lemma_disabled_type_is_skipped<T>(g: PluginGroupView<T>, type_id: TypeId, plugin: T)
    ensures
        group_added(group_disabled(g, type_id), type_id, plugin) == group_disabled(g, type_id),
        group_disabled(g, type_id).plugins == g.plugins,
{
}

/// A plugin type that is not disabled is appended after the plugins kept,
/// so registration follows the order of addition.
pub proof fn lemma_enabled_type_is_appended<T>(g: PluginGroupView<T>, type_id: TypeId, plugin: T)
    requires
        !g.disabled.contains(type_id),
    ensures
        group_added(g, type_id, plugin).plugins == g.plugins.push(plugin),
        group_added(g, type_id, plugin).plugins.last() == plugin,
        group_added(g, type_id, plugin).plugins.subrange(0, g.plugins.len() as int) == g.plugins,
{
    assert(g.plugins.push(plugin).subrange(0, g.plugins.len() as int) =~= g.plugins);
}

} // verus!
