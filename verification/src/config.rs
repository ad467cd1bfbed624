//! User configuration: hotkey, default interval, autostart.
//!
//! The file lives next to the journal, `<Documents>/Nudge/config.json`, and
//! is the source of truth shared by the running app and the settings window.
//! Loading is forgiving: a missing file gives the default config; an
//! unreadable or malformed one gives the default config together with the
//! error, so the app always starts. Reading, writing and JSON decoding are
//! done by the application; this module holds the decisions.
use vstd::prelude::*;
use crate::hotkey::{
    default_hotkey, format_spec, parse, parse_hotkey, word_space, Hotkey, HotkeyParse,
};
use crate::number::{FloatBits, positive_finite, ten_bits};
use crate::text::{chars_of, owned, push_chars, push_str, starts_with, string_of_range};

verus! {

/// Persisted configuration. Every field has a default, so older files keep
/// parsing as fields are added.
#[derive(Debug, Clone, PartialEq)]
pub struct Config {
    /// Hotkey label, e.g. "Ctrl+Shift+Space"; parsed lazily so an invalid
    /// label does not refuse the whole config.
    pub hotkey: String,
    /// Interval in minutes shown in the popup and used for the first timer;
    /// validated lazily by `resolved_interval_minutes`.
    pub default_interval_minutes: FloatBits,
    /// Whether the app is registered to launch at login. Written `true`
    /// only after the OS change is confirmed; opt-in, so `false` by default.
    pub autostart: bool,
}

/// "Ctrl+Shift+Space".
pub open spec fn default_label() -> Seq<char> {
    seq!['C', 't', 'r', 'l', '+', 'S', 'h', 'i', 'f', 't', '+', 'S', 'p', 'a', 'c', 'e']
}

/// The label of the default hotkey.
pub fn default_hotkey_label() -> (r: String)
    ensures
        r@ == default_label(),
{
    let hk = default_hotkey();
    let r = crate::hotkey::format(&hk);
    proof {
        assert((5u8 & 1u8) != 0u8 && (5u8 & 2u8) == 0u8 && (5u8 & 4u8) != 0u8 && (5u8 & 8u8) == 0u8)
            by (bit_vector);
        assert((1u8 | 4u8) == 5u8) by (bit_vector);
        assert(crate::hotkey::title_case(word_space()) =~= seq!['S', 'p', 'a', 'c', 'e']);
        assert(format_spec(5, word_space()) =~= default_label());
    }
    r
}

/// The built-in interval, 10 minutes.
pub fn default_interval_minutes_value() -> (r: FloatBits)
    ensures
        r.0 == ten_bits(),
{
    FloatBits::ten()
}

impl Default for Config {
    fn default() -> (r: Config)
        ensures
            r.hotkey@ == default_label(),
            r.default_interval_minutes.0 == ten_bits(),
            !r.autostart,
    {
        Config {
            hotkey: default_hotkey_label(),
            default_interval_minutes: default_interval_minutes_value(),
            autostart: false,
        }
    }
}

impl Config {
    /// Parse the hotkey label, falling back to the default when it does not
    /// parse. The flag tells whether the label was invalid.
    pub fn resolved_hotkey(&self) -> (r: (Hotkey, bool))
        ensures
            match parse_hotkey(self.hotkey@) {
                HotkeyParse::Parsed(m, k) => !r.1 && r.0.modifiers == m && r.0.key@ == k,
                _ => r.1 && r.0.modifiers == 5 && r.0.key@ == word_space(),
            },
            r.0.wf(),
    {
        proof {
            assert((1u8 | 4u8) == 5u8) by (bit_vector);
        }
        match parse(self.hotkey.as_str()) {
            Ok(h) => (h, false),
            Err(_) => (default_hotkey(), true),
        }
    }

    /// The configured interval when it is a finite positive number, else the
    /// built-in 10 minutes. The flag tells whether it was invalid.
    pub fn resolved_interval_minutes(&self) -> (r: (FloatBits, bool))
        ensures
            positive_finite(self.default_interval_minutes.0) ==> r == (
                self.default_interval_minutes,
                false,
            ),
            !positive_finite(self.default_interval_minutes.0) ==> r.0.0 == ten_bits() && r.1,
            positive_finite(r.0.0),
    {
        if self.default_interval_minutes.is_positive_finite() {
            (self.default_interval_minutes, false)
        } else {
            (default_interval_minutes_value(), true)
        }
    }
}

/// Read or write failure. `path` names the file the failure is about.
#[derive(Debug, Clone, PartialEq, Eq)]
pub enum ConfigError {
    Io { path: String, detail: String },
    Parse { path: String, detail: String },
}

impl ConfigError {
    /// "config I/O (<path>): <detail>" or "config parse (<path>): <detail>".
    pub fn message(&self) -> (r: String)
        ensures
            r@ == self.message_spec(),
    {
        let mut out = String::new();
        match self {
            ConfigError::Io { path, detail } => {
                push_chars(&mut out, &['c', 'o', 'n', 'f', 'i', 'g', ' ', 'I', '/', 'O', ' ', '(']);
                push_str(&mut out, path.as_str());
                push_chars(&mut out, &[')', ':', ' ']);
                push_str(&mut out, detail.as_str());
            },
            ConfigError::Parse { path, detail } => {
                push_chars(
                    &mut out,
                    &['c', 'o', 'n', 'f', 'i', 'g', ' ', 'p', 'a', 'r', 's', 'e', ' ', '('],
                );
                push_str(&mut out, path.as_str());
                push_chars(&mut out, &[')', ':', ' ']);
                push_str(&mut out, detail.as_str());
            },
        }
        out
    }

    pub open spec fn message_spec(&self) -> Seq<char> {
        match self {
            ConfigError::Io { path, detail } => seq![
                'c',
                'o',
                'n',
                'f',
                'i',
                'g',
                ' ',
                'I',
                '/',
                'O',
                ' ',
                '(',
            ] + path@ + seq![')', ':', ' '] + detail@,
            ConfigError::Parse { path, detail } => seq![
                'c',
                'o',
                'n',
                'f',
                'i',
                'g',
                ' ',
                'p',
                'a',
                'r',
                's',
                'e',
                ' ',
                '(',
            ] + path@ + seq![')', ':', ' '] + detail@,
        }
    }
}

/// What `Path::join` gives, as text, for a base path and a relative
/// component on the target the library is built for.
pub uninterp spec fn path_join(base: Seq<char>, child: Seq<char>) -> Seq<char>;

/// A single plain path component: not empty, not `.` or `..`, and without
/// a separator (`/`, `\`) or a drive colon.
pub open spec fn plain_component(c: Seq<char>) -> bool {
    &&& c.len() > 0
    &&& c != seq!['.'] && c != seq!['.', '.']
    &&& forall|i: int| 0 <= i < c.len() ==> #[trigger] c[i] != '/' && c[i] != '\\' && c[i] != ':'
}

/// A Windows verbatim path (`\\?\...`), which `Path::join` normalizes.
pub open spec fn verbatim_path(p: Seq<char>) -> bool {
    p.len() >= 4 && p[0] == '\\' && p[1] == '\\' && p[2] == '?' && p[3] == '\\'
}

/// `r` is `child` appended to `base`, directly or after one separator
/// (`/`, or `\` on Windows).
pub open spec fn appended(base: Seq<char>, child: Seq<char>, r: Seq<char>) -> bool {
    r == base + child || r == base + seq!['/'] + child || r == base + seq!['\\'] + child
}

/// `Path::join` of a base path and a component, as text (the inputs are
/// UTF-8, so the lossy conversion back loses nothing). Its documentation
/// says a relative component is appended "with a separator if needed"; which
/// separator, and when one is needed, depend on the target and are left to
/// the name `path_join`.
#[verifier::external_body]
pub(crate) fn join_path(base: &str, child: &str) -> (r: String)
    ensures
        r@ == path_join(base@, child@),
        plain_component(child@) && !verbatim_path(base@) ==> appended(base@, child@, r@),
{
    std::path::Path::new(base).join(child).to_string_lossy().into_owned()
}

/// The folder the app keeps its files in, under the documents folder.
pub open spec fn nudge_folder() -> Seq<char> {
    seq!['N', 'u', 'd', 'g', 'e']
}

pub open spec fn config_file_name() -> Seq<char> {
    seq!['c', 'o', 'n', 'f', 'i', 'g', '.', 'j', 's', 'o', 'n']
}

pub open spec fn config_path_spec(documents_dir: Seq<char>) -> Seq<char> {
    path_join(path_join(documents_dir, nudge_folder()), config_file_name())
}

/// Default config path: `<Documents>/Nudge/config.json`, the journal's
/// folder, so users have one folder to look in.
pub fn config_path(documents_dir: &str) -> (r: String)
    ensures
        r@ == config_path_spec(documents_dir@),
        !verbatim_path(documents_dir@) ==> exists|d: Seq<char>|
            #[trigger] appended(documents_dir@, nudge_folder(), d) && (!verbatim_path(d)
                ==> appended(d, config_file_name(), r@)),
{
    let nudge = string_of_range(&['N', 'u', 'd', 'g', 'e'], 0, 5);
    let file = string_of_range(&['c', 'o', 'n', 'f', 'i', 'g', '.', 'j', 's', 'o', 'n'], 0, 11);
    proof {
        assert(nudge@ =~= nudge_folder());
        assert(file@ =~= config_file_name());
        lemma_plain_names();
    }
    let dir = join_path(documents_dir, nudge.as_str());
    let r = join_path(dir.as_str(), file.as_str());
    assert(!verbatim_path(documents_dir@) ==> appended(documents_dir@, nudge_folder(), dir@));
    r
}

pub(crate) proof fn lemma_plain_names()
    ensures
        plain_component(nudge_folder()),
        plain_component(config_file_name()),
        plain_component(
            seq![
                'j', 'o', 'u', 'r', 'n', 'a', 'l', '-', 'r', 'u', 's', 't', '.', 'n', 'd', 'j', 's',
                'o', 'n',
            ],
        ),
{
    let j = seq![
        'j', 'o', 'u', 'r', 'n', 'a', 'l', '-', 'r', 'u', 's', 't', '.', 'n', 'd', 'j', 's', 'o', 'n',
    ];
    assert(nudge_folder() != seq!['.'] && nudge_folder() != seq!['.', '.']) by {
        assert(nudge_folder()[0] != seq!['.', '.'][0]);
    }
    assert(config_file_name() != seq!['.'] && config_file_name() != seq!['.', '.']) by {
        assert(config_file_name()[0] != seq!['.', '.'][0]);
    }
    assert(j != seq!['.'] && j != seq!['.', '.']) by {
        assert(j[0] != seq!['.', '.'][0]);
    }
}

/// The user's documents folder as the platform reports it, if it has one.
/// It depends on the environment, so nothing is promised of it.
#[verifier::external_body]
pub(crate) fn document_dir() -> (r: Option<String>) {
    match dirs::document_dir() {
        Some(p) => Some(p.to_string_lossy().into_owned()),
        None => None,
    }
}

/// The config path for a documents folder, or for the current directory
/// when the platform has none.
pub fn config_path_for(documents_dir: Option<&str>) -> (r: String)
    ensures
        match documents_dir {
            Some(d) => r@ == config_path_spec(d@),
            None => r@ == config_path_spec(seq!['.']),
        },
{
    match documents_dir {
        Some(d) => config_path(d),
        None => {
            let dot = string_of_range(&['.'], 0, 1);
            assert(dot@ =~= seq!['.']);
            config_path(dot.as_str())
        },
    }
}

/// The config path under the user's documents folder (or `.`).
pub fn resolve_default_config_path() -> (r: String)
    ensures
        exists|d: Seq<char>| r@ == config_path_spec(d),
{
    let docs = document_dir();
    match docs {
        Some(d) => config_path_for(Some(d.as_str())),
        None => config_path_for(None),
    }
}

pub open spec fn flag_config() -> Seq<char> {
    seq!['-', '-', 'c', 'o', 'n', 'f', 'i', 'g']
}

pub open spec fn flag_config_eq() -> Seq<char> {
    seq!['-', '-', 'c', 'o', 'n', 'f', 'i', 'g', '=']
}

/// The `--config <path>` / `--config=<path>` override among `args`: the
/// first occurrence wins; a trailing `--config` with no value gives `None`.
pub open spec fn config_arg(args: Seq<Seq<char>>) -> Option<Seq<char>>
    decreases args.len(),
{
    if args.len() == 0 {
        None
    } else if args[0] == flag_config() {
        if args.len() >= 2 {
            Some(args[1])
        } else {
            None
        }
    } else if starts_with(args[0], flag_config_eq()) {
        Some(args[0].subrange(9, args[0].len() as int))
    } else {
        config_arg(args.drop_first())
    }
}

pub open spec fn arg_views(args: Seq<&str>) -> Seq<Seq<char>> {
    args.map_values(|a: &str| a@)
}

/// Pull a `--config <path>` or `--config=<path>` override out of CLI
/// arguments, to point the app at a throwaway config.
pub fn parse_config_arg(args: &[&str]) -> (r: Option<String>)
    ensures
        match config_arg(arg_views(args@)) {
            Some(p) => r is Some && r->Some_0@ == p,
            None => r is None,
        },
{
    let ghost all = arg_views(args@);
    let mut i: usize = 0;
    assert(all.subrange(0, all.len() as int) =~= all);
    while i < args.len()
        invariant
            i <= args@.len(),
            all == arg_views(args@),
            config_arg(all) == config_arg(all.subrange(i as int, all.len() as int)),
        decreases args@.len() - i,
    {
        let ghost rest = all.subrange(i as int, all.len() as int);
        let arg = chars_of(args[i]);
        assert(rest[0] == args@[i as int]@);
        if arg.len() == 8 && arg[0] == '-' && arg[1] == '-' && arg[2] == 'c' && arg[3] == 'o'
            && arg[4] == 'n' && arg[5] == 'f' && arg[6] == 'i' && arg[7] == 'g' {
            assert(arg@ =~= flag_config());
            if i + 1 < args.len() {
                assert(rest[1] == args@[i + 1]@);
                return Some(owned(args[i + 1]));
            }
            return None;
        }
        assert(arg@ != flag_config());
        if arg.len() >= 9 && arg[0] == '-' && arg[1] == '-' && arg[2] == 'c' && arg[3] == 'o'
            && arg[4] == 'n' && arg[5] == 'f' && arg[6] == 'i' && arg[7] == 'g' && arg[8] == '=' {
            assert(arg@.subrange(0, 9) =~= flag_config_eq());
            return Some(string_of_range(arg.as_slice(), 9, arg.len()));
        }
        assert(!starts_with(arg@, flag_config_eq())) by {
            if starts_with(arg@, flag_config_eq()) {
                assert(arg@.subrange(0, 9)[8] == arg@[8]);
                assert(arg@.subrange(0, 9)[0] == arg@[0]);
                assert(arg@.subrange(0, 9)[1] == arg@[1]);
                assert(arg@.subrange(0, 9)[2] == arg@[2]);
                assert(arg@.subrange(0, 9)[3] == arg@[3]);
                assert(arg@.subrange(0, 9)[4] == arg@[4]);
                assert(arg@.subrange(0, 9)[5] == arg@[5]);
                assert(arg@.subrange(0, 9)[6] == arg@[6]);
                assert(arg@.subrange(0, 9)[7] == arg@[7]);
            }
        }
        assert(rest.drop_first() =~= all.subrange(i + 1, all.len() as int));
        i = i + 1;
    }
    None
}

/// What reading and decoding the config file gave.
#[derive(Debug, Clone, PartialEq)]
pub enum LoadOutcome {
    /// The file does not exist.
    Missing,
    /// The file exists but could not be read; the detail says why.
    Unreadable(String),
    /// The file was read but is not a valid config; the detail says why.
    Malformed(String),
    /// The file held this config.
    Parsed(Config),
}

/// Settle a load: the config to run with, and the error to report, if any.
/// A missing file is not an error; any other failure falls back to the
/// default config alongside the error.
pub fn settle_load(path: &str, outcome: LoadOutcome) -> (r: (Config, Option<ConfigError>))
    ensures
        match outcome {
            LoadOutcome::Parsed(c) => r.0 == c && r.1 is None,
            LoadOutcome::Missing => r.0.hotkey@ == default_label() && r.0.default_interval_minutes.0
                == ten_bits() && !r.0.autostart && r.1 is None,
            LoadOutcome::Unreadable(d) => r.0.hotkey@ == default_label()
                && r.0.default_interval_minutes.0 == ten_bits() && !r.0.autostart && r.1 is Some
                && r.1->Some_0 == ConfigError::Io { path: r.1->Some_0->Io_path, detail: d }
                && r.1->Some_0->Io_path@ == path@,
            LoadOutcome::Malformed(d) => r.0.hotkey@ == default_label()
                && r.0.default_interval_minutes.0 == ten_bits() && !r.0.autostart && r.1 is Some
                && r.1->Some_0 == ConfigError::Parse { path: r.1->Some_0->Parse_path, detail: d }
                && r.1->Some_0->Parse_path@ == path@,
        },
{
    match outcome {
        LoadOutcome::Parsed(c) => (c, None),
        LoadOutcome::Missing => (Config::default(), None),
        LoadOutcome::Unreadable(d) => (
            Config::default(),
            Some(ConfigError::Io { path: owned(path), detail: d }),
        ),
        LoadOutcome::Malformed(d) => (
            Config::default(),
            Some(ConfigError::Parse { path: owned(path), detail: d }),
        ),
    }
}

/// The sibling temp file an atomic save writes before renaming it over the
/// target: `<path>.tmp`.
pub fn temp_path(path: &str) -> (r: String)
    ensures
        r@ == path@ + seq!['.', 't', 'm', 'p'],
{
    let mut out = owned(path);
    push_chars(&mut out, &['.', 't', 'm', 'p']);
    out
}

} // verus!
