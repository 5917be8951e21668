//! The rules the framework's derives apply: how serde's `rename_all` rules
//! rename a field or variant, how a field's type is labelled in a config
//! description, and which stage declarations a stage enum accepts.
//!
//! Case conversion is heck's; the rules around it are the library's.

use crate::plugin::strings_view;
use crate::text::{join, lemma_trim_is_unique, owned, str_equal, trim, trimmed};
use heck::{
    ToKebabCase, ToLowerCamelCase, ToShoutyKebabCase, ToShoutySnakeCase, ToSnakeCase,
    ToUpperCamelCase,
};
use vstd::prelude::*;

verus! {

// ─── Case conversion ────────────────────────────────────────────────────────

/// heck's `to_upper_camel_case` of `s`.
pub uninterp spec fn upper_camel_case(s: Seq<char>) -> Seq<char>;

/// heck's `to_lower_camel_case` of `s`.
pub uninterp spec fn lower_camel_case(s: Seq<char>) -> Seq<char>;

/// heck's `to_snake_case` of `s`.
pub uninterp spec fn snake_case(s: Seq<char>) -> Seq<char>;

/// heck's `to_shouty_snake_case` of `s`.
pub uninterp spec fn shouty_snake_case(s: Seq<char>) -> Seq<char>;

/// heck's `to_kebab_case` of `s`.
pub uninterp spec fn kebab_case(s: Seq<char>) -> Seq<char>;

/// heck's `to_shouty_kebab_case` of `s`.
pub uninterp spec fn shouty_kebab_case(s: Seq<char>) -> Seq<char>;

/// std's `str::to_lowercase` of `s` (Unicode lowercase mapping).
pub uninterp spec fn lowercase(s: Seq<char>) -> Seq<char>;

/// std's `str::to_uppercase` of `s` (Unicode uppercase mapping).
pub uninterp spec fn uppercase(s: Seq<char>) -> Seq<char>;

/// `heck::ToUpperCamelCase::to_upper_camel_case`.
#[verifier::external_body]
fn to_upper_camel(s: &str) -> (r: String)
    ensures
        r@ == upper_camel_case(s@),
{
    s.to_upper_camel_case()
}

/// `heck::ToLowerCamelCase::to_lower_camel_case`.
#[verifier::external_body]
fn to_lower_camel(s: &str) -> (r: String)
    ensures
        r@ == lower_camel_case(s@),
{
    s.to_lower_camel_case()
}

/// `heck::ToSnakeCase::to_snake_case`.
#[verifier::external_body]
fn to_snake(s: &str) -> (r: String)
    ensures
        r@ == snake_case(s@),
{
    s.to_snake_case()
}

/// `heck::ToShoutySnakeCase::to_shouty_snake_case`.
#[verifier::external_body]
fn to_shouty_snake(s: &str) -> (r: String)
    ensures
        r@ == shouty_snake_case(s@),
{
    s.to_shouty_snake_case()
}

/// `heck::ToKebabCase::to_kebab_case`.
#[verifier::external_body]
fn to_kebab(s: &str) -> (r: String)
    ensures
        r@ == kebab_case(s@),
{
    s.to_kebab_case()
}

/// `heck::ToShoutyKebabCase::to_shouty_kebab_case`.
#[verifier::external_body]
fn to_shouty_kebab(s: &str) -> (r: String)
    ensures
        r@ == shouty_kebab_case(s@),
{
    s.to_shouty_kebab_case()
}

/// `str::to_lowercase`.
#[verifier::external_body]
fn to_lower(s: &str) -> (r: String)
    ensures
        r@ == lowercase(s@),
{
    s.to_lowercase()
}

/// `str::to_uppercase`.
#[verifier::external_body]
fn to_upper(s: &str) -> (r: String)
    ensures
        r@ == uppercase(s@),
{
    s.to_uppercase()
}

/// The text std's `Debug` gives a string (quoted, with escapes).
pub uninterp spec fn debug_str(s: Seq<char>) -> Seq<char>;

/// `<str as Debug>::fmt`, rendered to a string.
#[verifier::external_body]
fn render_debug_str(s: &str) -> (r: String)
    ensures
        r@ == debug_str(s@),
{
    format!("{:?}", s)
}

// ─── serde rename_all ───────────────────────────────────────────────────────

/// A serde `rename_all` rule.
#[derive(Debug, Clone, Copy, PartialEq, Eq, Structural)]
pub enum RenameRule {
    /// `"lowercase"`
    Lowercase,
    /// `"UPPERCASE"`
    Uppercase,
    /// `"PascalCase"`
    PascalCase,
    /// `"camelCase"`
    CamelCase,
    /// `"snake_case"`
    SnakeCase,
    /// `"SCREAMING_SNAKE_CASE"`
    ScreamingSnakeCase,
    /// `"kebab-case"`
    KebabCase,
    /// `"SCREAMING-KEBAB-CASE"`
    ScreamingKebabCase,
}

/// The rule serde names `rule`, if it is one of the supported ones.
pub open spec fn rename_rule_of(rule: Seq<char>) -> Option<RenameRule> {
    if rule == "lowercase"@ {
        Some(RenameRule::Lowercase)
    } else if rule == "UPPERCASE"@ {
        Some(RenameRule::Uppercase)
    } else if rule == "PascalCase"@ {
        Some(RenameRule::PascalCase)
    } else if rule == "camelCase"@ {
        Some(RenameRule::CamelCase)
    } else if rule == "snake_case"@ {
        Some(RenameRule::SnakeCase)
    } else if rule == "SCREAMING_SNAKE_CASE"@ {
        Some(RenameRule::ScreamingSnakeCase)
    } else if rule == "kebab-case"@ {
        Some(RenameRule::KebabCase)
    } else if rule == "SCREAMING-KEBAB-CASE"@ {
        Some(RenameRule::ScreamingKebabCase)
    } else {
        None
    }
}

/// `name` renamed by `rule`.
pub open spec fn renamed(name: Seq<char>, rule: RenameRule) -> Seq<char> {
    match rule {
        RenameRule::Lowercase => lowercase(name),
        RenameRule::Uppercase => uppercase(name),
        RenameRule::PascalCase => upper_camel_case(name),
        RenameRule::CamelCase => lower_camel_case(name),
        RenameRule::SnakeCase => snake_case(name),
        RenameRule::ScreamingSnakeCase => shouty_snake_case(name),
        RenameRule::KebabCase => kebab_case(name),
        RenameRule::ScreamingKebabCase => shouty_kebab_case(name),
    }
}

/// Parse a serde `rename_all` rule.
pub fn parse_rename_rule(rule: &str) -> (r: Option<RenameRule>)
    ensures
        r == rename_rule_of(rule@),
{
    if str_equal(rule, "lowercase") {
        Some(RenameRule::Lowercase)
    } else if str_equal(rule, "UPPERCASE") {
        Some(RenameRule::Uppercase)
    } else if str_equal(rule, "PascalCase") {
        Some(RenameRule::PascalCase)
    } else if str_equal(rule, "camelCase") {
        Some(RenameRule::CamelCase)
    } else if str_equal(rule, "snake_case") {
        Some(RenameRule::SnakeCase)
    } else if str_equal(rule, "SCREAMING_SNAKE_CASE") {
        Some(RenameRule::ScreamingSnakeCase)
    } else if str_equal(rule, "kebab-case") {
        Some(RenameRule::KebabCase)
    } else if str_equal(rule, "SCREAMING-KEBAB-CASE") {
        Some(RenameRule::ScreamingKebabCase)
    } else {
        None
    }
}

/// The text rejecting an unsupported `rename_all` rule.
pub open spec fn unsupported_rule_text(rule: Seq<char>) -> Seq<char> {
    "unsupported serde(rename_all = "@ + debug_str(rule) + ") for ConfigDescription"@
}

/// Rename the field or variant `name` by the `rename_all` rule, if any. An
/// unsupported rule is rejected with the text of the error.
pub fn rename_field(name: &str, rule: Option<&str>) -> (r: Result<String, String>)
    ensures
        match rule {
            None => r matches Ok(s) && s@ == name@,
            Some(rl) => match rename_rule_of(rl@) {
                Some(k) => r matches Ok(s) && s@ == renamed(name@, k),
                None => r matches Err(e) && e@ == unsupported_rule_text(rl@),
            },
        },
{
    let rule = match rule {
        None => return Ok(owned(name)),
        Some(rl) => rl,
    };
    match parse_rename_rule(rule) {
        Some(RenameRule::Lowercase) => Ok(to_lower(name)),
        Some(RenameRule::Uppercase) => Ok(to_upper(name)),
        Some(RenameRule::PascalCase) => Ok(to_upper_camel(name)),
        Some(RenameRule::CamelCase) => Ok(to_lower_camel(name)),
        Some(RenameRule::SnakeCase) => Ok(to_snake(name)),
        Some(RenameRule::ScreamingSnakeCase) => Ok(to_shouty_snake(name)),
        Some(RenameRule::KebabCase) => Ok(to_kebab(name)),
        Some(RenameRule::ScreamingKebabCase) => Ok(to_shouty_kebab(name)),
        None => {
            let s = join(owned("unsupported serde(rename_all = "), render_debug_str(rule).as_str());
            Err(join(s, ") for ConfigDescription"))
        },
    }
}

// ─── Config type labels ─────────────────────────────────────────────────────

/// The label a config description gives a field type whose last path segment
/// is `segment`: integer, float, boolean, string, array or optional for the
/// primitive and container types, else the segment itself.
pub open spec fn type_label(segment: Seq<char>) -> Seq<char> {
    if segment == "u8"@ || segment == "u16"@ || segment == "u32"@ || segment == "u64"@ || segment
        == "usize"@ || segment == "i8"@ || segment == "i16"@ || segment == "i32"@ || segment
        == "i64"@ || segment == "isize"@ {
        "integer"@
    } else if segment == "f32"@ || segment == "f64"@ {
        "float"@
    } else if segment == "bool"@ {
        "boolean"@
    } else if segment == "String"@ {
        "string"@
    } else if segment == "Vec"@ {
        "array"@
    } else if segment == "Option"@ {
        "optional"@
    } else {
        segment
    }
}

/// The label of a field type in a config description. A type that is not a
/// path, or has no segment, is labelled by its rendered tokens `rendered`;
/// otherwise by its last path segment `segment`.
pub fn config_type_name(segment: Option<&str>, rendered: &str) -> (r: String)
    ensures
        match segment {
            Some(s) => r@ == type_label(s@),
            None => r@ == rendered@,
        },
{
    let s = match segment {
        None => return owned(rendered),
        Some(s) => s,
    };
    if str_equal(s, "u8") || str_equal(s, "u16") || str_equal(s, "u32") || str_equal(s, "u64")
        || str_equal(s, "usize") || str_equal(s, "i8") || str_equal(s, "i16") || str_equal(s, "i32")
        || str_equal(s, "i64") || str_equal(s, "isize") {
        owned("integer")
    } else if str_equal(s, "f32") || str_equal(s, "f64") {
        owned("float")
    } else if str_equal(s, "bool") {
        owned("boolean")
    } else if str_equal(s, "String") {
        owned("string")
    } else if str_equal(s, "Vec") {
        owned("array")
    } else if str_equal(s, "Option") {
        owned("optional")
    } else {
        owned(s)
    }
}

// ─── Config description fields ──────────────────────────────────────────────

/// What serde's attributes and the declared type say of one struct field.
#[derive(Debug, Clone, PartialEq, Eq)]
pub struct FieldAttrs {
    /// `#[serde(default)]` or `#[serde(default = "...")]`.
    pub has_default: bool,
    /// `#[serde(flatten)]`.
    pub flatten: bool,
    /// `#[serde(skip)]` or `#[serde(skip_deserializing)]`.
    pub skip_deserializing: bool,
    /// The last `#[serde(rename = "...")]`, if any.
    pub rename: Option<String>,
    /// The field's type is an `Option<..>`.
    pub is_option: bool,
}

/// How a config description lists one field.
#[derive(Debug, Clone, PartialEq, Eq)]
pub struct FieldPlan {
    /// The TOML key.
    pub name: String,
    /// A value must be given: the field has neither a serde default nor an
    /// optional type.
    pub required: bool,
    /// The field's doc lines, each trimmed, joined by single spaces.
    pub description: String,
}

/// `items` separated by single spaces.
pub open spec fn space_joined(items: Seq<Seq<char>>) -> Seq<char>
    decreases items.len(),
{
    if items.len() == 0 {
        Seq::empty()
    } else if items.len() == 1 {
        items[0]
    } else {
        space_joined(items.drop_last()) + " "@ + items.last()
    }
}

/// The description text of doc lines `lines`.
pub open spec fn doc_text(lines: Seq<Seq<char>>) -> Seq<char> {
    space_joined(lines.map_values(|l: Seq<char>| trimmed(l)))
}

/// The doc lines joined into a field description.
fn doc_description(lines: &Vec<String>) -> (d: String)
    ensures
        d@ == doc_text(strings_view(lines@)),
{
    let ghost texts = strings_view(lines@).map_values(|l: Seq<char>| trimmed(l));
    let mut d = owned("");
    proof {
        reveal_strlit("");
        assert(d@ =~= Seq::<char>::empty());
        assert(texts.take(0).len() == 0);
    }
    let mut i: usize = 0;
    while i < lines.len()
        invariant
            0 <= i <= lines.len(),
            texts == strings_view(lines@).map_values(|l: Seq<char>| trimmed(l)),
            d@ == space_joined(texts.take(i as int)),
        decreases lines.len() - i,
    {
        if i > 0 {
            d = join(d, " ");
        }
        let part = trim(lines[i].as_str());
        proof {
            lemma_trim_is_unique(lines@[i as int]@, part@);
            assert(texts[i as int] == part@);
        }
        d = join(d, part);
        proof {
            assert(texts.take(i + 1).drop_last() =~= texts.take(i as int));
            assert(d@ =~= space_joined(texts.take(i + 1)));
        }
        i += 1;
    }
    assert(texts.take(lines.len() as int) =~= texts);
    d
}

/// `r` describes a field whose renamed identifier is `key`: a flattened or
/// skipped field is not listed; otherwise it is listed under its explicit
/// rename or else `key`, required unless it has a default or an optional
/// type, with its doc lines as description.
pub open spec fn field_planned(
    r: Result<Option<FieldPlan>, String>,
    key: Seq<char>,
    attrs: FieldAttrs,
    doc_lines: Seq<Seq<char>>,
) -> bool {
    match r {
        Err(_) => false,
        Ok(None) => attrs.flatten || attrs.skip_deserializing,
        Ok(Some(p)) => {
            &&& !attrs.flatten && !attrs.skip_deserializing
            &&& p.name@ == match attrs.rename {
                Some(n) => n@,
                None => key,
            }
            &&& p.required == !(attrs.has_default || attrs.is_option)
            &&& p.description@ == doc_text(doc_lines)
        },
    }
}

/// How the field `ident` (under the struct's `rename_all` rule `rule`, with
/// attributes `attrs` and doc lines `doc_lines`) is described; an
/// unsupported rule is an error.
pub fn plan_field(ident: &str, rule: Option<&str>, attrs: &FieldAttrs, doc_lines: &Vec<String>) -> (r:
    Result<Option<FieldPlan>, String>)
    ensures
        match rule {
            None => field_planned(r, ident@, *attrs, strings_view(doc_lines@)),
            Some(rl) => match rename_rule_of(rl@) {
                None => r matches Err(e) && e@ == unsupported_rule_text(rl@),
                Some(k) => field_planned(r, renamed(ident@, k), *attrs, strings_view(doc_lines@)),
            },
        },
{
    let renamed_ident = match rename_field(ident, rule) {
        Ok(name) => name,
        Err(e) => return Err(e),
    };
    if attrs.flatten || attrs.skip_deserializing {
        return Ok(None);
    }
    let name = match &attrs.rename {
        Some(n) => owned(n.as_str()),
        None => renamed_ident,
    };
    Ok(Some(FieldPlan {
        name,
        required: !(attrs.has_default || attrs.is_option),
        description: doc_description(doc_lines),
    }))
}

/// The text of an optional string.
pub open spec fn texts_of(o: Option<String>) -> Option<Seq<char>> {
    match o {
        Some(s) => Some(s@),
        None => None,
    }
}

/// The text of an optional string slice.
pub open spec fn str_texts_of(o: Option<&str>) -> Option<Seq<char>> {
    match o {
        Some(s) => Some(s@),
        None => None,
    }
}

/// The default and the example a config description gives a field, from
/// the TOML text of the field in the struct's `Default` value (`rendered`,
/// absent when the default does not serialize the field) and of the field's
/// `#[serde(default = "...")]` function's value (`serde_default`). A serde
/// default function gives both. Otherwise the example is the rendered
/// default, and the default is listed only for a field that may be left
/// out (not `required`).
pub fn default_and_example(required: bool, rendered: Option<&str>, serde_default: Option<&str>) -> (r: (
    Option<String>,
    Option<String>,
))
    ensures
        match serde_default {
            Some(d) => texts_of(r.0) == Some(d@) && texts_of(r.1) == Some(d@),
            None => {
                &&& texts_of(r.1) == str_texts_of(rendered)
                &&& texts_of(r.0) == if required {
                    None
                } else {
                    str_texts_of(rendered)
                }
            },
        },
{
    match serde_default {
        Some(d) => (Some(owned(d)), Some(owned(d))),
        None => {
            let example = match rendered {
                Some(t) => Some(owned(t)),
                None => None,
            };
            let default = if required {
                None
            } else {
                match rendered {
                    Some(t) => Some(owned(t)),
                    None => None,
                }
            };
            (default, example)
        },
    }
}

/// The value a config description lists for the unit variant `ident` of a
/// choice enum, under the enum's `rename_all` rule `rule` and the variant's
/// explicit `rename`; an unsupported rule is an error even beside an
/// explicit rename.
pub fn choice_value(ident: &str, rule: Option<&str>, rename: Option<&str>) -> (r: Result<String, String>)
    ensures
        match rule {
            Some(rl) if rename_rule_of(rl@) is None => r matches Err(e) && e@ == unsupported_rule_text(
                rl@,
            ),
            _ => r matches Ok(v) && v@ == match rename {
                Some(n) => n@,
                None => match rule {
                    None => ident@,
                    Some(rl) => renamed(ident@, rename_rule_of(rl@)->0),
                },
            },
        },
{
    let value = match rename_field(ident, rule) {
        Ok(v) => v,
        Err(e) => return Err(e),
    };
    match rename {
        Some(n) => Ok(owned(n)),
        None => Ok(value),
    }
}

// ─── Stage enums ────────────────────────────────────────────────────────────

/// Why the variants of a stage enum are rejected.
#[derive(Debug, Clone, PartialEq, Eq)]
pub enum StageEnumError {
    /// A variant carries no `#[stage("name")]` attribute.
    MissingStageAttribute {
        /// The variant's identifier.
        variant: String,
    },
    /// Two variants declare the same stage name.
    DuplicateStageName {
        /// The repeated stage name.
        name: String,
    },
}

/// Mathematical model of a [`StageEnumError`].
pub enum StageEnumFault {
    MissingStageAttribute { variant: Seq<char> },
    DuplicateStageName { name: Seq<char> },
}

impl View for StageEnumError {
    type V = StageEnumFault;

    open spec fn view(&self) -> StageEnumFault {
        match self {
            StageEnumError::MissingStageAttribute { variant } => StageEnumFault::MissingStageAttribute {
                variant: variant@,
            },
            StageEnumError::DuplicateStageName { name } => StageEnumFault::DuplicateStageName {
                name: name@,
            },
        }
    }
}

/// The text of a stage enum error.
pub open spec fn stage_enum_text(e: StageEnumFault) -> Seq<char> {
    match e {
        StageEnumFault::MissingStageAttribute { variant } => "StageEnum: variant `"@ + variant
            + "` is missing a #[stage(\"name\")] attribute. Every variant must specify its TOML stage name, e.g.:\n\n    #[stage(\"my_stage\")]\n    "@
            + variant + ","@,
        StageEnumFault::DuplicateStageName { name } => "StageEnum: duplicate stage name \""@ + name
            + "\". Each variant must have a unique stage name."@,
    }
}

impl StageEnumError {
    /// The diagnostic text of this error.
    pub fn message(&self) -> (s: String)
        ensures
            s@ == stage_enum_text(self@),
    {
        match self {
            StageEnumError::MissingStageAttribute { variant } => {
                let s = join(owned("StageEnum: variant `"), variant.as_str());
                let s = join(
                    s,
                    "` is missing a #[stage(\"name\")] attribute. Every variant must specify its TOML stage name, e.g.:\n\n    #[stage(\"my_stage\")]\n    ",
                );
                let s = join(s, variant.as_str());
                join(s, ",")
            },
            StageEnumError::DuplicateStageName { name } => {
                let s = join(owned("StageEnum: duplicate stage name \""), name.as_str());
                join(s, "\". Each variant must have a unique stage name.")
            },
        }
    }
}

/// One variant of a stage enum: its identifier and the stage name its
/// attribute declares, if any.
pub struct StageVariant {
    /// The variant's identifier.
    pub ident: String,
    /// The name in its `#[stage("...")]` attribute.
    pub stage: Option<String>,
}

/// The first variant at or after `i` (in declaration order) without a
/// stage attribute.
pub open spec fn first_unnamed(variants: Seq<(Seq<char>, Option<Seq<char>>)>, i: int) -> Option<int>
    decreases variants.len() - i,
{
    if i < 0 || i >= variants.len() {
        None
    } else if variants[i].1 is None {
        Some(i)
    } else {
        first_unnamed(variants, i + 1)
    }
}

/// Whether stage name `names[i]` is declared again later.
#[verifier::opaque]
pub open spec fn repeated_later(names: Seq<Seq<char>>, i: int) -> bool {
    exists|j: int| i < j < names.len() && #[trigger] names[j] == names[i]
}

/// The first stage name at or after `i` that is declared again later.
pub open spec fn first_repeated(names: Seq<Seq<char>>, i: int) -> Option<int>
    decreases names.len() - i,
{
    if i < 0 || i >= names.len() {
        None
    } else if repeated_later(names, i) {
        Some(i)
    } else {
        first_repeated(names, i + 1)
    }
}

/// What a stage enum with `variants` (identifier, declared stage name)
/// derives to: every variant must declare a stage name, checked in
/// declaration order; then the first name declared again later is rejected;
/// otherwise the stage names in declaration order.
pub open spec fn stage_enum_outcome(variants: Seq<(Seq<char>, Option<Seq<char>>)>) -> Result<
    Seq<Seq<char>>,
    StageEnumFault,
> {
    match first_unnamed(variants, 0) {
        Some(i) => Err(StageEnumFault::MissingStageAttribute { variant: variants[i].0 }),
        None => {
            let names = variants.map_values(|v: (Seq<char>, Option<Seq<char>>)| v.1->0);
            match first_repeated(names, 0) {
                Some(i) => Err(StageEnumFault::DuplicateStageName { name: names[i] }),
                None => Ok(names),
            }
        },
    }
}

/// The views of a list of stage variants.
pub open spec fn variants_view(v: Seq<StageVariant>) -> Seq<(Seq<char>, Option<Seq<char>>)> {
    v.map_values(
        |x: StageVariant|
            (
                x.ident@,
                match x.stage {
                    Some(s) => Some(s@),
                    None => None,
                },
            ),
    )
}

/// Check the variants of a stage enum and give its stage names in
/// declaration order.
pub fn check_stage_variants(variants: &Vec<StageVariant>) -> (r: Result<Vec<String>, StageEnumError>)
    ensures
        match stage_enum_outcome(variants_view(variants@)) {
            Ok(names) => r matches Ok(v) && strings_view(v@) == names,
            Err(f) => r matches Err(e) && e@ == f,
        },
{
    let ghost vs = variants_view(variants@);
    let n = variants.len();
    let mut names: Vec<String> = Vec::new();
    let mut i: usize = 0;
    while i < n
        invariant
            0 <= i <= n,
            n == variants.len(),
            vs == variants_view(variants@),
            first_unnamed(vs, 0) == first_unnamed(vs, i as int),
            strings_view(names@) == vs.take(i as int).map_values(
                |v: (Seq<char>, Option<Seq<char>>)| v.1->0,
            ),
        decreases n - i,
    {
        match &variants[i].stage {
            None => {
                assert(vs[i as int].1 is None);
                return Err(StageEnumError::MissingStageAttribute { variant: owned(variants[i].ident.as_str()) });
            },
            Some(name) => {
                let ghost prev = names@;
                let item = owned(name.as_str());
                names.push(item);
                proof {
                    crate::plugin::lemma_strings_view_push(prev, item);
                    assert(vs[i as int].1 == Some(name@));
                    assert(vs.take(i + 1).map_values(|v: (Seq<char>, Option<Seq<char>>)| v.1->0)
                        =~= vs.take(i as int).map_values(
                        |v: (Seq<char>, Option<Seq<char>>)| v.1->0,
                    ).push(name@));
                }
            },
        }
        i += 1;
    }
    assert(vs.take(n as int) =~= vs);
    assert(first_unnamed(vs, n as int) is None);
    let ghost ns = vs.map_values(|v: (Seq<char>, Option<Seq<char>>)| v.1->0);
    assert(strings_view(names@) == ns);
    let mut a: usize = 0;
    while a < n
        invariant
            0 <= a <= n,
            n == names.len(),
            n == ns.len(),
            ns == strings_view(names@),
            first_repeated(ns, 0) == first_repeated(ns, a as int),
            vs == variants_view(variants@),
            ns == vs.map_values(|v: (Seq<char>, Option<Seq<char>>)| v.1->0),
            first_unnamed(vs, 0) is None,
        decreases n - a,
    {
        let mut b: usize = a + 1;
        while b < n
            invariant
                a < n,
                a + 1 <= b <= n,
                n == names.len(),
                n == ns.len(),
                ns == strings_view(names@),
                forall|j: int| a < j < b ==> ns[j] != ns[a as int],
                first_repeated(ns, 0) == first_repeated(ns, a as int),
                vs == variants_view(variants@),
                ns == vs.map_values(|v: (Seq<char>, Option<Seq<char>>)| v.1->0),
                first_unnamed(vs, 0) is None,
            decreases n - b,
        {
            if str_equal(names[a].as_str(), names[b].as_str()) {
                proof {
                    assert(ns[b as int] == ns[a as int]);
                    reveal(repeated_later);
                    assert(repeated_later(ns, a as int));
                }
                return Err(StageEnumError::DuplicateStageName { name: owned(names[a].as_str()) });
            }
            b += 1;
        }
        proof {
            reveal(repeated_later);
            assert(!repeated_later(ns, a as int));
        }
        a += 1;
    }
    Ok(names)
}

proof fn lemma_first_repeated_none(names: Seq<Seq<char>>, i: int)
    requires
        0 <= i,
        first_repeated(names, i) is None,
    ensures
        forall|k: int| i <= k < names.len() ==> !repeated_later(names, k),
    decreases names.len() - i,
{
    if i < names.len() {
        lemma_first_repeated_none(names, i + 1);
    }
}

/// A stage enum that derives has one variant per stage name, and no stage
/// name twice: stage names identify stages.
pub proof fn law_accepted_stage_names_are_distinct(variants: Seq<(Seq<char>, Option<Seq<char>>)>)
    requires
        stage_enum_outcome(variants) is Ok,
    ensures
        ({
            let names = stage_enum_outcome(variants)->Ok_0;
            &&& names.len() == variants.len()
            &&& forall|i: int, j: int|
                0 <= i < j < names.len() ==> #[trigger] names[i] != #[trigger] names[j]
        }),
{
    let names = variants.map_values(|v: (Seq<char>, Option<Seq<char>>)| v.1->0);
    lemma_first_repeated_none(names, 0);
    reveal(repeated_later);
    assert forall|i: int, j: int| 0 <= i < j < names.len() implies #[trigger] names[i]
        != #[trigger] names[j] by {
        assert(!repeated_later(names, i));
    }
}

} // verus!
