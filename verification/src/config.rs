//! Configuration input: the errors a configuration read reports, the check
//! that an input path names a TOML file, and the decisions of the input
//! stage (which file to read, where output goes).
//!
//! TOML text is parsed here into a plain [`ConfigTree`]; reading files and
//! the command line itself belong to the caller. Generated configuration snippets of a sub-App are moved under
//! the sub-App's namespace here too.

use crate::config_tree::{ConfigTree, TreeView};
use crate::dump::{find_char, lemma_find_char, spells};
use crate::text::{chars_of, join, owned, string_of};
use vstd::prelude::*;

verus! {

// ─── ConfigError ────────────────────────────────────────────────────────────

/// An actionable config-read error.
#[derive(Debug, Clone, PartialEq, Eq)]
pub enum ConfigError {
    /// The supplied path does not name a TOML file.
    InvalidFileExtension {
        /// Path supplied by the caller.
        path: String,
    },
    /// Reading the TOML file failed.
    ReadFile {
        /// File that could not be read.
        path: String,
        /// The operating-system error.
        message: String,
    },
    /// Parsing TOML text failed.
    ParseToml {
        /// Origin of the TOML text (a path, or `"<string>"`).
        path: String,
        /// The TOML parser error.
        message: String,
    },
    /// A required `[key]` section was absent from the parsed TOML table.
    MissingSection {
        /// The missing top-level section name, without brackets.
        key: String,
    },
    /// A required config read was attempted before a config was installed.
    MissingConfigResource {
        /// The required top-level section name, without brackets.
        key: String,
    },
    /// A present `[key]` section failed to deserialize into the requested type.
    InvalidSection {
        /// The top-level section name, without brackets.
        key: String,
        /// The TOML deserialization error.
        message: String,
    },
    /// A present `[[key]]` value was not an array or one of its entries did
    /// not deserialize into the requested type.
    InvalidArray {
        /// The top-level array name, without brackets.
        key: String,
        /// The failing entry index, if the value was an array.
        index: Option<usize>,
        /// The TOML deserialization error or a shape description.
        message: String,
    },
}

/// Mathematical model of a [`ConfigError`].
pub enum ConfigFault {
    InvalidFileExtension { path: Seq<char> },
    ReadFile { path: Seq<char>, message: Seq<char> },
    ParseToml { path: Seq<char>, message: Seq<char> },
    MissingSection { key: Seq<char> },
    MissingConfigResource { key: Seq<char> },
    InvalidSection { key: Seq<char>, message: Seq<char> },
    InvalidArray { key: Seq<char>, index: Option<usize>, message: Seq<char> },
}

impl View for ConfigError {
    type V = ConfigFault;

    open spec fn view(&self) -> ConfigFault {
        match self {
            ConfigError::InvalidFileExtension { path } => ConfigFault::InvalidFileExtension {
                path: path@,
            },
            ConfigError::ReadFile { path, message } => ConfigFault::ReadFile {
                path: path@,
                message: message@,
            },
            ConfigError::ParseToml { path, message } => ConfigFault::ParseToml {
                path: path@,
                message: message@,
            },
            ConfigError::MissingSection { key } => ConfigFault::MissingSection { key: key@ },
            ConfigError::MissingConfigResource { key } => ConfigFault::MissingConfigResource {
                key: key@,
            },
            ConfigError::InvalidSection { key, message } => ConfigFault::InvalidSection {
                key: key@,
                message: message@,
            },
            ConfigError::InvalidArray { key, index, message } => ConfigFault::InvalidArray {
                key: key@,
                index: *index,
                message: message@,
            },
        }
    }
}

/// The text of a config error.
pub open spec fn config_error_text(e: ConfigFault) -> Seq<char> {
    match e {
        ConfigFault::InvalidFileExtension { path } => "input file must be a .toml file, got '"@
            + path + "'"@,
        ConfigFault::ReadFile { path, message } => "failed to read '"@ + path + "': "@ + message,
        ConfigFault::ParseToml { path, message } => "failed to parse TOML '"@ + path + "': "@
            + message,
        ConfigFault::MissingSection { key } => "missing required ["@ + key
            + "] section in config file. Add a ["@ + key
            + "] section, or run with --generate-config to see the sections this app expects."@,
        ConfigFault::MissingConfigResource { key } => "cannot read required ["@ + key
            + "] section because no Config resource is installed. Add InputPlugin before this plugin, or seed Config in tests."@,
        ConfigFault::InvalidSection { key, message } => "failed to parse ["@ + key
            + "] section in config file: "@ + message,
        ConfigFault::InvalidArray { key, index, message } => match index {
            Some(i) => "failed to parse [["@ + key + "]] entry "@ + crate::text::decimal(i as nat)
                + " in config file: "@ + message,
            None => "expected [["@ + key + "]] to be an array in config file: "@ + message,
        },
    }
}

impl ConfigError {
    /// The diagnostic text of this error.
    pub fn message(&self) -> (s: String)
        ensures
            s@ == config_error_text(self@),
    {
        match self {
            ConfigError::InvalidFileExtension { path } => {
                let s = join(owned("input file must be a .toml file, got '"), path.as_str());
                join(s, "'")
            },
            ConfigError::ReadFile { path, message } => {
                let s = join(owned("failed to read '"), path.as_str());
                let s = join(s, "': ");
                join(s, message.as_str())
            },
            ConfigError::ParseToml { path, message } => {
                let s = join(owned("failed to parse TOML '"), path.as_str());
                let s = join(s, "': ");
                join(s, message.as_str())
            },
            ConfigError::MissingSection { key } => {
                let s = join(owned("missing required ["), key.as_str());
                let s = join(s, "] section in config file. Add a [");
                let s = join(s, key.as_str());
                join(
                    s,
                    "] section, or run with --generate-config to see the sections this app expects.",
                )
            },
            ConfigError::MissingConfigResource { key } => {
                let s = join(owned("cannot read required ["), key.as_str());
                join(
                    s,
                    "] section because no Config resource is installed. Add InputPlugin before this plugin, or seed Config in tests.",
                )
            },
            ConfigError::InvalidSection { key, message } => {
                let s = join(owned("failed to parse ["), key.as_str());
                let s = join(s, "] section in config file: ");
                join(s, message.as_str())
            },
            ConfigError::InvalidArray { key, index, message } => match index {
                Some(i) => {
                    let s = join(owned("failed to parse [["), key.as_str());
                    let s = join(s, "]] entry ");
                    let s = join(s, crate::text::render_usize(*i).as_str());
                    let s = join(s, " in config file: ");
                    join(s, message.as_str())
                },
                None => {
                    let s = join(owned("expected [["), key.as_str());
                    let s = join(s, "]] to be an array in config file: ");
                    join(s, message.as_str())
                },
            },
        }
    }
}

// ─── TOML paths ─────────────────────────────────────────────────────────────

/// Whether `s` ends with `suffix`.
pub open spec fn ends_with(s: Seq<char>, suffix: Seq<char>) -> bool {
    s.len() >= suffix.len() && s.subrange(s.len() - suffix.len(), s.len() as int) == suffix
}

/// `str::ends_with` with a string-slice pattern.
#[verifier::external_body]
fn str_ends_with(s: &str, suffix: &str) -> (r: bool)
    ensures
        r == ends_with(s@, suffix@),
{
    s.ends_with(suffix)
}

/// A configuration file is read only from a path ending in `.toml`.
pub fn check_toml_extension(path: &str) -> (r: Result<(), ConfigError>)
    ensures
        r is Ok <==> ends_with(path@, ".toml"@),
        r matches Err(e) ==> e@ == (ConfigFault::InvalidFileExtension { path: path@ }),
{
    if !str_ends_with(path, ".toml") {
        return Err(ConfigError::InvalidFileExtension { path: owned(path) });
    }
    Ok(())
}

// ─── Input ──────────────────────────────────────────────────────────────────

/// Input metadata: the input filename and, optionally, the output directory
/// resolved from the configuration or the input file's location.
pub struct Input {
    /// Path to the input TOML file.
    pub filename: String,
    /// Resolved output directory, if configured or inferred.
    pub output_dir: Option<String>,
}

/// Reads the command line, the input file and installs the configuration
/// and [`Input`]; see [`plan_input`] for its decisions.
pub struct InputPlugin;

/// What the input stage does.
#[derive(Debug, Clone, PartialEq, Eq)]
pub enum InputAction {
    /// A configuration was already installed: leave it.
    KeepSeeded,
    /// `--generate-config` was given: install an empty configuration and ask
    /// for the config snippets.
    GenerateConfig,
    /// No input file was given: report the usage and stop.
    Usage,
    /// Read and parse this input file.
    Load {
        /// The input file path.
        input_file: String,
    },
}

/// Mathematical model of an [`InputAction`].
pub enum InputActionView {
    KeepSeeded,
    GenerateConfig,
    Usage,
    Load { input_file: Seq<char> },
}

impl View for InputAction {
    type V = InputActionView;

    open spec fn view(&self) -> InputActionView {
        match self {
            InputAction::KeepSeeded => InputActionView::KeepSeeded,
            InputAction::GenerateConfig => InputActionView::GenerateConfig,
            InputAction::Usage => InputActionView::Usage,
            InputAction::Load { input_file } => InputActionView::Load { input_file: input_file@ },
        }
    }
}

/// The decision of the input stage on command line `args` (the program name
/// first): a seeded configuration wins; then `--generate-config` anywhere;
/// then the first argument is the input file.
pub open spec fn input_action(config_present: bool, args: Seq<Seq<char>>) -> InputActionView {
    if config_present {
        InputActionView::KeepSeeded
    } else if args.contains("--generate-config"@) {
        InputActionView::GenerateConfig
    } else if args.len() < 2 {
        InputActionView::Usage
    } else {
        InputActionView::Load { input_file: args[1] }
    }
}

/// What the input stage does: a seeded configuration is kept; otherwise
/// `--generate-config` as any argument, first, last or between, asks for the
/// generated configuration; otherwise a command line without an input file
/// gets the usage, and one with it loads the first argument after the
/// program name.
pub proof fn lemma_input_plan(config_present: bool, args: Seq<Seq<char>>)
    ensures
        config_present ==> input_action(config_present, args) == InputActionView::KeepSeeded,
        forall|k: int|
            !config_present && 0 <= k < args.len() && #[trigger] args[k] == "--generate-config"@
                ==> input_action(config_present, args) == InputActionView::GenerateConfig,
        !config_present && (forall|k: int| 0 <= k < args.len() ==> #[trigger] args[k] != "--generate-config"@)
            ==> input_action(config_present, args) == (if args.len() < 2 {
                InputActionView::Usage
            } else {
                InputActionView::Load { input_file: args[1] }
            }),
{
    assert forall|k: int|
        !config_present && 0 <= k < args.len() && #[trigger] args[k] == "--generate-config"@
            implies input_action(config_present, args) == InputActionView::GenerateConfig by {
        assert(args.contains(args[k]));
    }
}

/// The views of a list of strings.
pub open spec fn args_view(v: Seq<String>) -> Seq<Seq<char>> {
    v.map_values(|s: String| s@)
}

/// Decide what the input stage does with command line `args`.
pub fn plan_input(config_present: bool, args: &Vec<String>) -> (a: InputAction)
    ensures
        a@ == input_action(config_present, args_view(args@)),
{
    if config_present {
        return InputAction::KeepSeeded;
    }
    let mut i: usize = 0;
    while i < args.len()
        invariant
            0 <= i <= args.len(),
            !config_present,
            forall|j: int| 0 <= j < i ==> args@[j]@ != "--generate-config"@,
        decreases args.len() - i,
    {
        if crate::text::str_equal(args[i].as_str(), "--generate-config") {
            assert(args_view(args@)[i as int] == "--generate-config"@);
            assert(args_view(args@).contains("--generate-config"@));
            return InputAction::GenerateConfig;
        }
        i += 1;
    }
    proof {
        if args_view(args@).contains("--generate-config"@) {
            let j = choose|j: int| 0 <= j < args@.len() && args_view(args@)[j] == "--generate-config"@;
            assert(args@[j]@ == "--generate-config"@);
        }
    }
    if args.len() < 2 {
        return InputAction::Usage;
    }
    InputAction::Load { input_file: owned(args[1].as_str()) }
}

/// The parent directory std's `Path::parent` gives a path (`None` for a root
/// or an empty path), rendered as text.
pub uninterp spec fn path_parent(path: Seq<char>) -> Option<Seq<char>>;

/// `Path::parent`, rendered with `to_string_lossy`.
#[verifier::external_body]
fn parent_of(path: &str) -> (r: Option<String>)
    ensures
        match r {
            Some(p) => path_parent(path@) == Some(p@),
            None => path_parent(path@) is None,
        },
{
    std::path::Path::new(path).parent().map(|p| p.to_string_lossy().into_owned())
}

/// Where output goes: the configured directory if there is one, else the
/// input file's parent directory when it is not empty.
pub open spec fn output_dir_of(configured: Option<Seq<char>>, input_file: Seq<char>) -> Option<
    Seq<char>,
> {
    match configured {
        Some(d) => Some(d),
        None => match path_parent(input_file) {
            Some(p) => if p.len() > 0 {
                Some(p)
            } else {
                None
            },
            None => None,
        },
    }
}

/// Resolve the output directory from the configured `[output] dir`, if any,
/// and the input file's location.
pub fn output_dir_for(configured: Option<&str>, input_file: &str) -> (r: Option<String>)
    ensures
        match r {
            Some(d) => output_dir_of(
                match configured {
                    Some(c) => Some(c@),
                    None => None,
                },
                input_file@,
            ) == Some(d@),
            None => output_dir_of(
                match configured {
                    Some(c) => Some(c@),
                    None => None,
                },
                input_file@,
            ) is None,
        },
{
    match configured {
        Some(d) => Some(owned(d)),
        None => match parent_of(input_file) {
            Some(p) => {
                if !p.as_str().is_empty() {
                    Some(p)
                } else {
                    None
                }
            },
            None => None,
        },
    }
}


// ─── Namespaced snippets ────────────────────────────────────────────────────

/// `l` without one trailing carriage return.
pub open spec fn without_cr(l: Seq<char>) -> Seq<char> {
    if l.len() > 0 && l.last() == '\r' {
        l.drop_last()
    } else {
        l
    }
}

/// The lines of `s[i..]` as `str::lines` yields them: split at `\n`, each
/// terminated line without a trailing `\r`, and no empty line after a final
/// `\n`.
pub open spec fn lines_from(s: Seq<char>, i: int) -> Seq<Seq<char>>
    decreases s.len() - i,
{
    if i < 0 || i >= s.len() {
        Seq::empty()
    } else {
        match find_char(s, '\n', i) {
            None => seq![s.subrange(i, s.len() as int)],
            Some(k) => {
                proof {
                    lemma_find_char(s, '\n', i);
                }
                seq![without_cr(s.subrange(i, k))] + lines_from(s, k + 1)
            },
        }
    }
}

/// `s` with every leading repetition of `p` removed (`str::trim_start_matches`).
pub open spec fn strip_leading(s: Seq<char>, p: Seq<char>) -> Seq<char>
    decreases s.len(),
{
    if p.len() > 0 && s.len() >= p.len() && s.subrange(0, p.len() as int) == p {
        strip_leading(s.subrange(p.len() as int, s.len() as int), p)
    } else {
        s
    }
}

/// `s` with every trailing repetition of `p` removed (`str::trim_end_matches`).
pub open spec fn strip_trailing(s: Seq<char>, p: Seq<char>) -> Seq<char>
    decreases s.len(),
{
    if p.len() > 0 && s.len() >= p.len() && s.subrange(s.len() - p.len(), s.len() as int) == p {
        strip_trailing(s.subrange(0, s.len() - p.len()), p)
    } else {
        s
    }
}

/// A `[table]` header line (and not an `[[array]]` one).
pub open spec fn is_table_header(l: Seq<char>) -> bool {
    l.len() > 0 && l[0] == '[' && !(l.len() > 1 && l[1] == '[')
}

/// An `[[array]]` header line.
pub open spec fn is_array_header(l: Seq<char>) -> bool {
    l.len() > 1 && l[0] == '[' && l[1] == '['
}

/// The snippet lines `lines` with the first table or array header moved
/// under `namespace`, each followed by `\n`; and whether a header was moved.
pub open spec fn namespaced_lines(lines: Seq<Seq<char>>, namespace: Seq<char>) -> (Seq<char>, bool)
    decreases lines.len(),
{
    if lines.len() == 0 {
        (Seq::empty(), false)
    } else {
        let (prev, changed) = namespaced_lines(lines.drop_last(), namespace);
        let l = lines.last();
        if !changed && is_table_header(l) {
            (prev + seq!['['] + namespace + seq!['.'] + strip_trailing(strip_leading(l, seq!['[']), seq![']'])
                + seq![']', '\n'], true)
        } else if !changed && is_array_header(l) {
            (prev + seq!['[', '['] + namespace + seq!['.'] + strip_trailing(
                strip_leading(l, seq!['[', '[']),
                seq![']', ']'],
            ) + seq![']', ']', '\n'], true)
        } else {
            (prev + l + seq!['\n'], changed)
        }
    }
}

/// The lines of `s`, each as a vector.
fn split_lines(s: &Vec<char>) -> (lines: Vec<Vec<char>>)
    ensures
        lines@.map_values(|l: Vec<char>| l@) == lines_from(s@, 0),
{
    let n = s.len();
    let mut lines: Vec<Vec<char>> = Vec::new();
    let mut i: usize = 0;
    while i < n
        invariant
            i <= n,
            n == s@.len(),
            lines@.map_values(|l: Vec<char>| l@) + lines_from(s@, i as int) == lines_from(s@, 0),
        decreases n - i,
    {
        let mut line: Vec<char> = Vec::new();
        let mut k: usize = i;
        while k < n && s[k] != '\n'
            invariant
                i <= k <= n,
                n == s@.len(),
                line@ == s@.subrange(i as int, k as int),
                forall|j: int| i <= j < k ==> s@[j] != '\n',
            decreases n - k,
        {
            line.push(s[k]);
            assert(s@.subrange(i as int, k + 1) =~= s@.subrange(i as int, k as int).push(s@[k as int]));
            k = k + 1;
        }
        proof {
            lemma_find_char(s@, '\n', i as int);
        }
        let ghost before = lines@.map_values(|l: Vec<char>| l@);
        if k == n {
            proof {
                if let Some(m) = find_char(s@, '\n', i as int) {
                    assert(s@[m] != '\n');
                }
                assert(find_char(s@, '\n', i as int) is None);
            }
            lines.push(line);
            assert(lines@.map_values(|l: Vec<char>| l@) =~= before.push(s@.subrange(i as int, n as int)));
            assert(lines_from(s@, n as int) =~= Seq::<Seq<char>>::empty());
            i = n;
        } else {
            proof {
                if let Some(m) = find_char(s@, '\n', i as int) {
                    if m < k {
                        assert(s@[m] != '\n');
                    }
                    assert(m == k);
                }
            }
            if line.len() > 0 && line[line.len() - 1] == '\r' {
                line.pop();
            }
            proof {
                assert(line@ =~= without_cr(s@.subrange(i as int, k as int)));
            }
            lines.push(line);
            assert(lines@.map_values(|l: Vec<char>| l@) =~= before.push(without_cr(s@.subrange(i as int, k as int))));
            i = k + 1;
        }
    }
    proof {
        assert(lines_from(s@, i as int) =~= Seq::<Seq<char>>::empty());
        assert(lines@.map_values(|l: Vec<char>| l@) =~= lines_from(s@, 0));
    }
    lines
}

/// `v` with every leading repetition of `p` removed.
fn strip_leading_vec(v: &Vec<char>, p: &[char]) -> (r: Vec<char>)
    requires
        p@.len() > 0,
    ensures
        r@ == strip_leading(v@, p@),
{
    let n = v.len();
    let m = p.len();
    let mut i: usize = 0;
    assert(v@.subrange(0, n as int) =~= v@);
    while i <= n && m <= n - i && spells(v, i, i + m, p)
        invariant
            i <= n,
            n == v@.len(),
            m == p@.len(),
            m > 0,
            strip_leading(v@.subrange(i as int, n as int), p@) == strip_leading(v@, p@),
        decreases n - i,
    {
        proof {
            let rest = v@.subrange(i as int, n as int);
            assert(rest.subrange(0, m as int) =~= v@.subrange(i as int, i + m));
            assert(rest.subrange(m as int, rest.len() as int) =~= v@.subrange(i + m, n as int));
        }
        i = i + m;
    }
    proof {
        let rest = v@.subrange(i as int, n as int);
        if m <= n - i {
            assert(rest.subrange(0, m as int) =~= v@.subrange(i as int, i + m));
        }
    }
    let tail = vstd::slice::slice_subrange(v.as_slice(), i, n);
    vstd::slice::slice_to_vec(tail)
}

/// `v` with every trailing repetition of `p` removed.
fn strip_trailing_vec(v: &Vec<char>, p: &[char]) -> (r: Vec<char>)
    requires
        p@.len() > 0,
    ensures
        r@ == strip_trailing(v@, p@),
{
    let n = v.len();
    let m = p.len();
    let mut e: usize = n;
    assert(v@.subrange(0, n as int) =~= v@);
    while m <= e && spells(v, e - m, e, p)
        invariant
            e <= n,
            n == v@.len(),
            m == p@.len(),
            m > 0,
            strip_trailing(v@.subrange(0, e as int), p@) == strip_trailing(v@, p@),
        decreases e,
    {
        proof {
            let rest = v@.subrange(0, e as int);
            assert(rest.subrange(e - m, e as int) =~= v@.subrange(e - m, e as int));
            assert(rest.subrange(0, e - m) =~= v@.subrange(0, e - m));
        }
        e = e - m;
    }
    proof {
        let rest = v@.subrange(0, e as int);
        if m <= e {
            assert(rest.subrange(e - m, e as int) =~= v@.subrange(e - m, e as int));
        }
        assert(v@.subrange(0, n as int) =~= v@);
    }
    let head = vstd::slice::slice_subrange(v.as_slice(), 0, e);
    vstd::slice::slice_to_vec(head)
}

/// Append `chars` to `out`.
fn push_all(out: &mut Vec<char>, chars: &[char])
    ensures
        final(out)@ == old(out)@ + chars@,
{
    let ghost start = out@;
    let mut i: usize = 0;
    while i < chars.len()
        invariant
            0 <= i <= chars@.len(),
            out@ == start + chars@.subrange(0, i as int),
        decreases chars.len() - i,
    {
        out.push(chars[i]);
        assert(chars@.subrange(0, i + 1) =~= chars@.subrange(0, i as int).push(chars@[i as int]));
        i = i + 1;
    }
    assert(chars@.subrange(0, chars@.len() as int) =~= chars@);
}

/// Move a generated configuration snippet under `namespace`: its first
/// `[section]` header becomes `[namespace.section]` (an `[[array]]` header
/// `[[namespace.array]]`); every line, the header included, ends with `\n`.
pub fn namespace_generated_table(namespace: &str, snippet: String) -> (r: String)
    ensures
        r@ == namespaced_lines(lines_from(snippet@, 0), namespace@).0,
{
    let text = chars_of(snippet.as_str());
    let ns = chars_of(namespace);
    let lines = split_lines(&text);
    let ghost views = lines@.map_values(|l: Vec<char>| l@);
    let open1: [char; 1] = ['['];
    let close1: [char; 1] = [']'];
    let open2: [char; 2] = ['[', '['];
    let close2: [char; 2] = [']', ']'];
    assert(open1@ == seq!['[']);
    assert(close1@ == seq![']']);
    assert(open2@ == seq!['[', '[']);
    assert(close2@ == seq![']', ']']);
    let mut out: Vec<char> = Vec::new();
    let mut changed = false;
    let mut j: usize = 0;
    while j < lines.len()
        invariant
            0 <= j <= lines@.len(),
            views == lines@.map_values(|l: Vec<char>| l@),
            ns@ == namespace@,
            open1@ == seq!['['],
            close1@ == seq![']'],
            open2@ == seq!['[', '['],
            close2@ == seq![']', ']'],
            (out@, changed) == namespaced_lines(views.take(j as int), ns@),
        decreases lines.len() - j,
    {
        let line = &lines[j];
        let ghost l = line@;
        proof {
            assert(views.take(j + 1).drop_last() =~= views.take(j as int));
            assert(views.take(j + 1).last() == l);
        }
        let ghost before = out@;
        let ghost was_changed = changed;
        let starts_open = line.len() > 0 && line[0] == '[';
        let second_open = line.len() > 1 && line[1] == '[';
        assert(starts_open && !second_open <==> is_table_header(l));
        assert(starts_open && second_open <==> is_array_header(l));
        if !changed && starts_open && !second_open {
            let inner = strip_leading_vec(line, &open1);
            let inner = strip_trailing_vec(&inner, &close1);
            out.push('[');
            push_all(&mut out, ns.as_slice());
            out.push('.');
            push_all(&mut out, inner.as_slice());
            out.push(']');
            out.push('\n');
            changed = true;
            proof {
                assert(out@ =~= before + seq!['['] + ns@ + seq!['.'] + strip_trailing(
                    strip_leading(l, seq!['[']),
                    seq![']'],
                ) + seq![']', '\n']);
            }
        } else if !changed && starts_open && second_open {
            let inner = strip_leading_vec(line, &open2);
            let inner = strip_trailing_vec(&inner, &close2);
            out.push('[');
            out.push('[');
            push_all(&mut out, ns.as_slice());
            out.push('.');
            push_all(&mut out, inner.as_slice());
            out.push(']');
            out.push(']');
            out.push('\n');
            changed = true;
            proof {
                assert(out@ =~= before + seq!['[', '['] + ns@ + seq!['.'] + strip_trailing(
                    strip_leading(l, seq!['[', '[']),
                    seq![']', ']'],
                ) + seq![']', ']', '\n']);
            }
        } else {
            push_all(&mut out, line.as_slice());
            out.push('\n');
            proof {
                assert(out@ =~= before + l + seq!['\n']);
            }
        }
        j = j + 1;
    }
    assert(views.take(lines@.len() as int) =~= views);
    string_of(out.as_slice())
}


// ─── Symbolic choices ───────────────────────────────────────────────────────

/// Symbolic TOML values accepted by a configuration field: an enum's
/// declared variants; nothing for a primitive, a container or a table.
pub trait ConfigChoices {
    /// Declared symbolic values, in source order.
    fn choices() -> Vec<String>;
}

impl ConfigChoices for bool {
    fn choices() -> (v: Vec<String>)
        ensures
            v@.len() == 0,
    {
        Vec::new()
    }
}

impl ConfigChoices for String {
    fn choices() -> (v: Vec<String>)
        ensures
            v@.len() == 0,
    {
        Vec::new()
    }
}

impl ConfigChoices for ConfigTree {
    fn choices() -> (v: Vec<String>)
        ensures
            v@.len() == 0,
    {
        Vec::new()
    }
}

impl ConfigChoices for u8 {
    fn choices() -> (v: Vec<String>)
        ensures
            v@.len() == 0,
    {
        Vec::new()
    }
}

impl ConfigChoices for u16 {
    fn choices() -> (v: Vec<String>)
        ensures
            v@.len() == 0,
    {
        Vec::new()
    }
}

impl ConfigChoices for u32 {
    fn choices() -> (v: Vec<String>)
        ensures
            v@.len() == 0,
    {
        Vec::new()
    }
}

impl ConfigChoices for u64 {
    fn choices() -> (v: Vec<String>)
        ensures
            v@.len() == 0,
    {
        Vec::new()
    }
}

impl ConfigChoices for usize {
    fn choices() -> (v: Vec<String>)
        ensures
            v@.len() == 0,
    {
        Vec::new()
    }
}

impl ConfigChoices for i8 {
    fn choices() -> (v: Vec<String>)
        ensures
            v@.len() == 0,
    {
        Vec::new()
    }
}

impl ConfigChoices for i16 {
    fn choices() -> (v: Vec<String>)
        ensures
            v@.len() == 0,
    {
        Vec::new()
    }
}

impl ConfigChoices for i32 {
    fn choices() -> (v: Vec<String>)
        ensures
            v@.len() == 0,
    {
        Vec::new()
    }
}

impl ConfigChoices for i64 {
    fn choices() -> (v: Vec<String>)
        ensures
            v@.len() == 0,
    {
        Vec::new()
    }
}

impl ConfigChoices for isize {
    fn choices() -> (v: Vec<String>)
        ensures
            v@.len() == 0,
    {
        Vec::new()
    }
}

/// An optional field accepts the choices of the field it wraps.
impl<T: ConfigChoices> ConfigChoices for Option<T> {
    fn choices() -> Vec<String> {
        T::choices()
    }
}

impl<T> ConfigChoices for Vec<T> {
    fn choices() -> (v: Vec<String>)
        ensures
            v@.len() == 0,
    {
        Vec::new()
    }
}

// ─── Parsed configuration ───────────────────────────────────────────────────

#[verifier::external_type_specification]
#[verifier::external_body]
pub struct ExTomlValue(toml::Value);

/// Whether the toml crate accepts `text` as a TOML document (a top-level
/// table).
pub uninterp spec fn toml_accepts(text: Seq<char>) -> bool;

/// The document that the toml crate reads from `text`, as a plain tree:
/// its top-level table with every value it holds.
pub uninterp spec fn toml_document(text: Seq<char>) -> TreeView;

/// The text of the toml crate's error for a `text` it refuses.
pub uninterp spec fn toml_error_text(text: Seq<char>) -> Seq<char>;

/// `toml::from_str::<toml::Table>`, with the table turned value for value
/// into a [`ConfigTree`] (a float by its bit pattern, a date-time by its
/// text), or the parser's error text. The toml crate's parse depends on
/// the text alone; its result is named, not restated.
#[verifier::external_body]
fn parse_toml_tree(text: &str) -> (r: Result<ConfigTree, String>)
    ensures
        r is Ok <==> toml_accepts(text@),
        r matches Ok(t) ==> t@ == toml_document(text@) && t@ is Table,
        r matches Err(e) ==> e@ == toml_error_text(text@),
{
    match toml::from_str::<toml::Table>(text) {
        Ok(table) => Ok(tree_of(toml::Value::Table(table))),
        Err(error) => Err(error.to_string()),
    }
}

/// A `toml::Value` as a [`ConfigTree`], variant for variant and entry for
/// entry in the table's own order. No contract: [`parse_toml_tree`] states
/// what its result is.
#[verifier::external_body]
fn tree_of(value: toml::Value) -> ConfigTree {
    match value {
        toml::Value::String(s) => ConfigTree::Str(s),
        toml::Value::Integer(i) => ConfigTree::Int(i),
        toml::Value::Float(f) => ConfigTree::FloatBits(f.to_bits()),
        toml::Value::Boolean(b) => ConfigTree::Bool(b),
        toml::Value::Datetime(d) => ConfigTree::Datetime(d.to_string()),
        toml::Value::Array(items) => ConfigTree::Array(items.into_iter().map(tree_of).collect()),
        toml::Value::Table(t) => ConfigTree::Table(t.into_iter().map(|(k, v)| (k, tree_of(v))).collect()),
    }
}

/// A parsed TOML document that plugins read their sections from.
pub struct Config {
    /// The document's top-level table.
    pub tree: ConfigTree,
}

impl Config {
    /// Construct from an already-parsed document.
    pub fn from_tree(tree: ConfigTree) -> (c: Self)
        ensures
            c.tree == tree,
    {
        Config { tree }
    }
}

/// Parse the TOML text `text` read from `origin` (a path, or `"<string>"`):
/// the document when the text is a TOML document, else a parse error
/// naming `origin` with the parser's text.
pub fn parse_config(origin: &str, text: &str) -> (r: Result<Config, ConfigError>)
    ensures
        r is Ok <==> toml_accepts(text@),
        r matches Ok(c) ==> c.tree@ == toml_document(text@) && c.tree@ is Table,
        r matches Err(e) ==> e@ == (ConfigFault::ParseToml { path: origin@, message: toml_error_text(text@) }),
{
    match parse_toml_tree(text) {
        Ok(tree) => Ok(Config { tree }),
        Err(message) => Err(ConfigError::ParseToml { path: owned(origin), message }),
    }
}

/// Parse TOML text given in place of a file.
pub fn try_config_from_str(text: &str) -> (r: Result<Config, ConfigError>)
    ensures
        r is Ok <==> toml_accepts(text@),
        r matches Ok(c) ==> c.tree@ == toml_document(text@) && c.tree@ is Table,
        r matches Err(e) ==> e@ == (ConfigFault::ParseToml { path: "<string>"@, message: toml_error_text(text@) }),
{
    parse_config("<string>", text)
}

} // verus!
