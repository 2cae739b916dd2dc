//! The configuration model (menu tree and top-pill modules) and the rules
//! that decide which configuration and stylesheet files are used.
//!
//! What the process environment holds and which files exist are asked by
//! the caller; the functions here decide from those answers.
use vstd::prelude::*;
use vstd::string::StringExecFns;
use crate::text::{str_eq, concat, opt_view, strings_view, first_true, first_true_from, lemma_first_true_from, find_first};

verus! {

broadcast use vstd::string::group_string_axioms;

// ---------------------------------------------------------------------
// Data model
// ---------------------------------------------------------------------

/// One wedge of the radial menu.
#[derive(Debug, Default, PartialEq)]
pub struct MenuItem {
    pub label: String,
    pub icon: String,
    /// Program and arguments run when clicked; empty for submenu items.
    pub command: Vec<String>,
    /// Child items; a non-empty list makes this item a submenu.
    pub items: Vec<MenuItem>,
}

impl MenuItem {
    /// The item opens a submenu.
    pub fn is_submenu(&self) -> (r: bool)
        ensures
            r == (self.items@.len() > 0),
    {
        self.items.len() > 0
    }
}

/// A Waybar-style module of the top pill.
#[derive(Clone, Debug, Default, PartialEq)]
pub struct BarModule {
    /// Shell command whose output becomes the module text.
    pub command: String,
    /// Refresh interval in seconds.
    pub interval: u64,
    /// Format string; `{output}` is replaced with the command output.
    pub format: String,
    /// Optional icon rendered before the text.
    pub icon: String,
    /// Long-lived command whose output lines become the module text.
    pub stream_command: String,
    /// Files whose changes re-run `command` before its interval elapses.
    pub watch: Vec<String>,
    pub on_click: String,
    pub on_click_right: String,
    pub on_scroll_up: String,
    pub on_scroll_down: String,
}

/// The top status pill.
#[derive(Clone, Debug, PartialEq)]
pub struct TopBarConfig {
    pub enabled: bool,
    /// Ordered modules rendered inside the pill.
    pub modules: Vec<BarModule>,
}

/// Default of the configuration's on/off switches that are on unless set.
pub fn default_true() -> (r: bool)
    ensures
        r,
{
    true
}

/// Record a configuration path given on the command line; only the first
/// path given is kept.
pub fn set_config_override(slot: &mut Option<String>, path: String)
    ensures
        old(slot).is_some() ==> *final(slot) == *old(slot),
        old(slot).is_none() ==> *final(slot) == Some(path),
{
    if slot.is_none() {
        *slot = Some(path);
    }
}

// ---------------------------------------------------------------------
// Built-in defaults
// ---------------------------------------------------------------------

/// `m` is an item with this label, icon and command, and no children.
pub open spec fn is_leaf(m: MenuItem, label: Seq<char>, icon: Seq<char>, command: Seq<Seq<char>>) -> bool {
    &&& m.label@ == label
    &&& m.icon@ == icon
    &&& strings_view(m.command@) == command
    &&& m.items@.len() == 0
}

/// `m` is a submenu with this label and icon, no command, and `n` children.
pub open spec fn is_branch(m: MenuItem, label: Seq<char>, icon: Seq<char>, n: nat) -> bool {
    &&& m.label@ == label
    &&& m.icon@ == icon
    &&& m.command@.len() == 0
    &&& m.items@.len() == n
}

fn words2(a: &str, b: &str) -> (r: Vec<String>)
    ensures
        strings_view(r@) == seq![a@, b@],
{
    let mut v: Vec<String> = Vec::new();
    v.push(a.to_string());
    v.push(b.to_string());
    assert(strings_view(v@) =~= seq![a@, b@]);
    v
}

fn words1(a: &str) -> (r: Vec<String>)
    ensures
        strings_view(r@) == seq![a@],
{
    let mut v: Vec<String> = Vec::new();
    v.push(a.to_string());
    assert(strings_view(v@) =~= seq![a@]);
    v
}

fn item(label: &str, icon: &str, command: Vec<String>, items: Vec<MenuItem>) -> (m: MenuItem)
    ensures
        m.label@ == label@,
        m.icon@ == icon@,
        m.command == command,
        m.items == items,
{
    MenuItem { label: label.to_string(), icon: icon.to_string(), command, items }
}

/// The menu used when no configuration file is found.
pub fn default_menu_items() -> (r: Vec<MenuItem>)
    ensures
        r@.len() == 3,
        is_branch(r@[0], "Media"@, "🎵"@, 3),
        is_leaf(r@[0].items@[0], "Play/Pause"@, "⏯"@, seq!["playerctl"@, "play-pause"@]),
        is_leaf(r@[0].items@[1], "Next"@, "⏭"@, seq!["playerctl"@, "next"@]),
        is_branch(r@[0].items@[2], "Volume"@, "🔊"@, 1),
        is_leaf(r@[0].items@[2].items@[0], "Mute"@, "🔇"@, seq!["pamixer"@, "-t"@]),
        is_leaf(r@[1], "Terminal"@, "💻"@, seq!["foot"@]),
        is_leaf(r@[2], "Lock"@, "🔒"@, seq!["hyprlock"@]),
{
    let mut volume_items: Vec<MenuItem> = Vec::new();
    volume_items.push(item("Mute", "🔇", words2("pamixer", "-t"), Vec::new()));
    let mut media_items: Vec<MenuItem> = Vec::new();
    media_items.push(item("Play/Pause", "⏯", words2("playerctl", "play-pause"), Vec::new()));
    media_items.push(item("Next", "⏭", words2("playerctl", "next"), Vec::new()));
    media_items.push(item("Volume", "🔊", Vec::new(), volume_items));
    let mut items: Vec<MenuItem> = Vec::new();
    items.push(item("Media", "🎵", Vec::new(), media_items));
    items.push(item("Terminal", "💻", words1("foot"), Vec::new()));
    items.push(item("Lock", "🔒", words1("hyprlock"), Vec::new()));
    items
}

/// `m` polls `command` every `interval` seconds and shows it through
/// `format`, with every other field empty.
pub open spec fn is_polled_module(m: BarModule, command: Seq<char>, interval: u64, format: Seq<char>) -> bool {
    &&& m.command@ == command
    &&& m.interval == interval
    &&& m.format@ == format
    &&& m.icon@.len() == 0
    &&& m.stream_command@.len() == 0
    &&& m.watch@.len() == 0
    &&& m.on_click@.len() == 0
    &&& m.on_click_right@.len() == 0
    &&& m.on_scroll_up@.len() == 0
    &&& m.on_scroll_down@.len() == 0
}

fn polled_module(command: &str, interval: u64, format: &str) -> (m: BarModule)
    ensures
        is_polled_module(m, command@, interval, format@),
{
    BarModule {
        command: command.to_string(),
        interval,
        format: format.to_string(),
        icon: String::new(),
        stream_command: String::new(),
        watch: Vec::new(),
        on_click: String::new(),
        on_click_right: String::new(),
        on_scroll_up: String::new(),
        on_scroll_down: String::new(),
    }
}

/// The top pill used when no configuration file is found: load, memory
/// and clock modules.
pub fn default_top_bar() -> (r: TopBarConfig)
    ensures
        r.enabled,
        r.modules@.len() == 3,
        is_polled_module(r.modules@[0], "cat /proc/loadavg | awk '{print $1}'"@, 2, "CPU {output}"@),
        is_polled_module(
            r.modules@[1],
            "free -h | awk '/^Mem/ {print $3 \"/\" $2}'"@,
            5,
            "{output}"@,
        ),
        is_polled_module(r.modules@[2], "date +'%a %H:%M'"@, 30, "{output}"@),
{
    let mut modules: Vec<BarModule> = Vec::new();
    modules.push(polled_module("cat /proc/loadavg | awk '{print $1}'", 2, "CPU {output}"));
    modules.push(polled_module("free -h | awk '/^Mem/ {print $3 \"/\" $2}'", 5, "{output}"));
    modules.push(polled_module("date +'%a %H:%M'", 30, "{output}"));
    TopBarConfig { enabled: true, modules }
}

// ---------------------------------------------------------------------
// Paths
// ---------------------------------------------------------------------

/// `base` with the relative path `rel` appended, with one `/` between
/// them (none when `base` is empty or already ends in `/`); an absolute
/// `rel` replaces `base`.
pub open spec fn join_path(base: Seq<char>, rel: Seq<char>) -> Seq<char> {
    if rel.len() > 0 && rel[0] == '/' {
        rel
    } else if base.len() == 0 || base.last() == '/' {
        base + rel
    } else {
        base + seq!['/'] + rel
    }
}

/// `Path::new(base).join(rel)` as text.
pub fn path_join(base: &str, rel: &str) -> (r: String)
    ensures
        r@ == join_path(base@, rel@),
{
    let mut out = base.to_string();
    let n = base.unicode_len();
    let absolute = rel.unicode_len() > 0 && rel.get_char(0) == '/';
    if absolute {
        return rel.to_string();
    }
    proof {
        reveal_strlit("/");
    }
    if n > 0 && base.get_char(n - 1) != '/' {
        out.append("/");
        assert(out@ =~= base@ + seq!['/']);
    }
    out.append(rel);
    out
}


/// The value of an environment variable when it is set and not empty.
pub open spec fn set_nonempty(v: Option<Seq<char>>) -> Option<Seq<char>> {
    match v {
        Some(s) => if s.len() > 0 {
            Some(s)
        } else {
            None
        },
        None => None,
    }
}

fn nonempty(v: &Option<String>) -> (r: Option<&String>)
    ensures
        match r {
            Some(s) => set_nonempty(opt_view(*v)) == Some(s@),
            None => set_nonempty(opt_view(*v)) is None,
        },
{
    match v {
        Some(s) => if s.as_str().unicode_len() > 0 {
            Some(s)
        } else {
            None
        },
        None => None,
    }
}

/// The user configuration directory: `$XDG_CONFIG_HOME/hyprcircl`, else
/// `$HOME/.config/hyprcircl`, else `.config/hyprcircl`.
pub open spec fn config_dir(xdg: Option<Seq<char>>, home: Option<Seq<char>>) -> Seq<char> {
    match set_nonempty(xdg) {
        Some(x) => join_path(x, "hyprcircl"@),
        None => match set_nonempty(home) {
            Some(h) => join_path(h, ".config/hyprcircl"@),
            None => ".config/hyprcircl"@,
        },
    }
}

/// The user configuration directory, given `$XDG_CONFIG_HOME` and `$HOME`.
pub fn default_config_dir(xdg: &Option<String>, home: &Option<String>) -> (r: String)
    ensures
        r@ == config_dir(opt_view(*xdg), opt_view(*home)),
{
    match nonempty(xdg) {
        Some(x) => path_join(x.as_str(), "hyprcircl"),
        None => match nonempty(home) {
            Some(h) => path_join(h.as_str(), ".config/hyprcircl"),
            None => ".config/hyprcircl".to_string(),
        },
    }
}

/// Candidate configuration files, in priority order: the command-line
/// override, `$HYPRCIRCL_CONFIG`, the two names under `$XDG_CONFIG_HOME`,
/// the two names under `$HOME/.config`, then the two names in the current
/// directory. `hyprcircl.toml` is the real name; `config.toml` is kept as a
/// fallback.
pub open spec fn config_candidates(
    override_path: Option<Seq<char>>,
    env_path: Option<Seq<char>>,
    xdg: Option<Seq<char>>,
    home: Option<Seq<char>>,
) -> Seq<Seq<char>> {
    (match override_path {
        Some(p) => seq![p],
        None => Seq::empty(),
    }) + (match set_nonempty(env_path) {
        Some(p) => seq![p],
        None => Seq::empty(),
    }) + (match set_nonempty(xdg) {
        Some(x) => seq![x + "/hyprcircl/hyprcircl.toml"@, x + "/hyprcircl/config.toml"@],
        None => Seq::empty(),
    }) + (match set_nonempty(home) {
        Some(h) => seq![
            h + "/.config/hyprcircl/hyprcircl.toml"@,
            h + "/.config/hyprcircl/config.toml"@,
        ],
        None => Seq::empty(),
    }) + seq!["hyprcircl.toml"@, "config.toml"@]
}

/// Candidate configuration files in priority order, given the override
/// path and the values of `$HYPRCIRCL_CONFIG`, `$XDG_CONFIG_HOME` and
/// `$HOME` (`None` when unset).
pub fn config_paths(
    override_path: &Option<String>,
    env_path: &Option<String>,
    xdg: &Option<String>,
    home: &Option<String>,
) -> (r: Vec<String>)
    ensures
        strings_view(r@) == config_candidates(
            opt_view(*override_path),
            opt_view(*env_path),
            opt_view(*xdg),
            opt_view(*home),
        ),
{
    let mut paths: Vec<String> = Vec::new();
    let ghost mut expect: Seq<Seq<char>> = Seq::empty();
    match override_path {
        Some(p) => {
            paths.push(p.clone());
            proof {
                expect = seq![p@];
            }
        },
        None => {},
    }
    assert(strings_view(paths@) =~= expect);
    let ghost e1 = expect;
    match nonempty(env_path) {
        Some(p) => {
            paths.push(p.clone());
            proof {
                expect = expect.push(p@);
            }
        },
        None => {},
    }
    assert(strings_view(paths@) =~= expect);
    let ghost e2 = expect;
    match nonempty(xdg) {
        Some(x) => {
            paths.push(concat(x.as_str(), "/hyprcircl/hyprcircl.toml"));
            paths.push(concat(x.as_str(), "/hyprcircl/config.toml"));
            proof {
                expect = expect.push(x@ + "/hyprcircl/hyprcircl.toml"@).push(
                    x@ + "/hyprcircl/config.toml"@,
                );
            }
        },
        None => {},
    }
    assert(strings_view(paths@) =~= expect);
    let ghost e3 = expect;
    match nonempty(home) {
        Some(h) => {
            paths.push(concat(h.as_str(), "/.config/hyprcircl/hyprcircl.toml"));
            paths.push(concat(h.as_str(), "/.config/hyprcircl/config.toml"));
            proof {
                expect = expect.push(h@ + "/.config/hyprcircl/hyprcircl.toml"@).push(
                    h@ + "/.config/hyprcircl/config.toml"@,
                );
            }
        },
        None => {},
    }
    assert(strings_view(paths@) =~= expect);
    paths.push("hyprcircl.toml".to_string());
    paths.push("config.toml".to_string());
    proof {
        expect = expect.push("hyprcircl.toml"@).push("config.toml"@);
    }
    assert(strings_view(paths@) =~= expect);
    assert(expect =~= config_candidates(
        opt_view(*override_path),
        opt_view(*env_path),
        opt_view(*xdg),
        opt_view(*home),
    ));
    paths
}

/// The configuration file the loader would use: the first candidate that
/// exists, else `hyprcircl.toml` in the default directory (where `init`
/// writes it). `exists[i]` tells whether `paths[i]` exists.
pub fn resolved_config_path(paths: &Vec<String>, exists: &Vec<bool>, default_dir: &str) -> (r:
    String)
    requires
        exists@.len() == paths@.len(),
    ensures
        match first_true(exists@) {
            Some(i) => 0 <= i < paths@.len() && r@ == paths@[i]@,
            None => r@ == join_path(default_dir@, "hyprcircl.toml"@),
        },
{
    match find_first(exists) {
        Some(i) => paths[i].clone(),
        None => path_join(default_dir, "hyprcircl.toml"),
    }
}


// ---------------------------------------------------------------------
// Which configuration loads
// ---------------------------------------------------------------------

/// The configuration schema this version understands.
pub const CURRENT_SCHEMA_VERSION: u32 = 1;

/// What reading and parsing one candidate file gave.
#[derive(Clone, Copy, Debug, PartialEq, Eq, Structural)]
pub enum ConfigStatus {
    /// Missing or unreadable.
    Unreadable,
    /// Read, but not a valid configuration.
    Malformed,
    /// Parsed; its `schema_version` (0 when the file has none).
    Parsed(u32),
}

/// Which configuration the loader uses.
#[derive(Clone, Copy, Debug, PartialEq, Eq, Structural)]
pub enum ConfigChoice {
    /// No candidate could be read: the defaults, with no file to watch.
    NotFound,
    /// The candidate at `index` is malformed: the defaults, watching that file.
    Unparsable { index: usize },
    /// The candidate at `index` is newer than this version understands:
    /// the defaults, watching that file.
    Unsupported { index: usize, schema_version: u32 },
    /// The candidate at `index`, with its schema version filled in.
    Loaded { index: usize, schema_version: u32 },
}

pub open spec fn is_readable(s: ConfigStatus) -> bool {
    !(s is Unreadable)
}

/// Index of the first readable candidate from `i` on.
pub open spec fn first_readable_from(st: Seq<ConfigStatus>, i: int) -> Option<int>
    decreases st.len() - i,
{
    if i < 0 || i >= st.len() {
        None
    } else if is_readable(st[i]) {
        Some(i)
    } else {
        first_readable_from(st, i + 1)
    }
}

/// The loader's choice: the search stops at the first candidate that can
/// be read, so a broken higher-priority file is reported and watched
/// instead of silently falling through to a lower-priority one. A file
/// without a schema version counts as version 1.
pub open spec fn config_choice(st: Seq<ConfigStatus>) -> ConfigChoice {
    match first_readable_from(st, 0) {
        None => ConfigChoice::NotFound,
        Some(i) => match st[i] {
            ConfigStatus::Parsed(v) => {
                let v1 = if v == 0 {
                    1u32
                } else {
                    v
                };
                if v1 > CURRENT_SCHEMA_VERSION {
                    ConfigChoice::Unsupported { index: i as usize, schema_version: v1 }
                } else {
                    ConfigChoice::Loaded { index: i as usize, schema_version: v1 }
                }
            },
            _ => ConfigChoice::Unparsable { index: i as usize },
        },
    }
}

/// Decide which configuration loads from what each candidate gave, in
/// priority order.
pub fn select_config(statuses: &Vec<ConfigStatus>) -> (r: ConfigChoice)
    ensures
        r == config_choice(statuses@),
{
    let mut i: usize = 0;
    while i < statuses.len()
        invariant
            i <= statuses@.len(),
            first_readable_from(statuses@, i as int) == first_readable_from(statuses@, 0),
        decreases statuses@.len() - i,
    {
        match statuses[i] {
            ConfigStatus::Unreadable => {},
            ConfigStatus::Malformed => {
                return ConfigChoice::Unparsable { index: i };
            },
            ConfigStatus::Parsed(v) => {
                let v1 = if v == 0 {
                    1
                } else {
                    v
                };
                if v1 > CURRENT_SCHEMA_VERSION {
                    return ConfigChoice::Unsupported { index: i, schema_version: v1 };
                }
                return ConfigChoice::Loaded { index: i, schema_version: v1 };
            },
        }
        i = i + 1;
    }
    ConfigChoice::NotFound
}

/// The index of the candidate a choice loads or watches; `None` when no
/// candidate could be read.
pub open spec fn choice_index(c: ConfigChoice) -> Option<int> {
    match c {
        ConfigChoice::NotFound => None,
        ConfigChoice::Unparsable { index } => Some(index as int),
        ConfigChoice::Unsupported { index, .. } => Some(index as int),
        ConfigChoice::Loaded { index, .. } => Some(index as int),
    }
}

proof fn lemma_first_readable_is_first_existing(exists: Seq<bool>, st: Seq<ConfigStatus>, j: int)
    requires
        0 <= j <= st.len(),
        exists.len() == st.len(),
        forall|i: int| 0 <= i < st.len() && is_readable(#[trigger] st[i]) ==> exists[i],
        first_true_from(exists, j) matches Some(i) ==> is_readable(st[i]),
    ensures
        first_readable_from(st, j) == first_true_from(exists, j),
    decreases st.len() - j,
{
    if j < st.len() && !exists[j] {
        lemma_first_readable_is_first_existing(exists, st, j + 1);
    }
}

/// The path reported as the configuration in use (the first candidate that
/// exists) is the one the loader uses, whenever that file can be read:
/// `exists[i]` tells whether candidate `i` exists, `st[i]` what reading it
/// gave, and only an existing file can be read.
pub proof fn lemma_reported_path_is_loaded(exists: Seq<bool>, st: Seq<ConfigStatus>)
    requires
        exists.len() == st.len(),
        st.len() <= usize::MAX,
        forall|i: int| 0 <= i < st.len() && is_readable(#[trigger] st[i]) ==> exists[i],
        first_true(exists) matches Some(i) ==> is_readable(st[i]),
    ensures
        choice_index(config_choice(st)) == first_true(exists),
{
    lemma_first_readable_is_first_existing(exists, st, 0);
    lemma_first_true_from(exists, 0);
}

proof fn lemma_skips_unreadable(st: Seq<ConfigStatus>, i: int, j: int)
    requires
        0 <= j <= i < st.len(),
        forall|k: int| 0 <= k < i ==> st[k] == ConfigStatus::Unreadable,
        !(st[i] is Unreadable),
    ensures
        first_readable_from(st, j) == Some(i),
    decreases i - j,
{
    if j < i {
        lemma_skips_unreadable(st, i, j + 1);
    }
}

/// The first candidate that can be read decides, whatever follows it: a
/// malformed file is reported as such; a parsed file whose schema version
/// (none, or 0, reads as 1) is at most the version this build understands
/// loads with that version, so versions 0 and 1 always load; only a
/// strictly newer version is refused. With no readable candidate nothing
/// is found.
pub proof fn lemma_first_readable_decides(st: Seq<ConfigStatus>, i: int)
    requires
        0 <= i < st.len(),
        i <= usize::MAX,
        forall|k: int| 0 <= k < i ==> st[k] == ConfigStatus::Unreadable,
    ensures
        st[i] == ConfigStatus::Malformed ==> config_choice(st) == (ConfigChoice::Unparsable { index: i as usize }),
        st[i] matches ConfigStatus::Parsed(v) ==> ({
            let v1: u32 = if v == 0 { 1 } else { v };
            &&& v1 <= CURRENT_SCHEMA_VERSION ==> config_choice(st) == (ConfigChoice::Loaded { index: i as usize, schema_version: v1 })
            &&& v1 > CURRENT_SCHEMA_VERSION ==> config_choice(st) == (ConfigChoice::Unsupported { index: i as usize, schema_version: v1 })
            &&& v <= 1 ==> config_choice(st) == (ConfigChoice::Loaded { index: i as usize, schema_version: 1 })
        }),
{
    if !(st[i] is Unreadable) {
        lemma_skips_unreadable(st, i, 0);
    }
}

/// With no readable candidate the defaults load and no file is watched.
pub proof fn lemma_nothing_readable(st: Seq<ConfigStatus>)
    requires
        forall|k: int| 0 <= k < st.len() ==> st[k] == ConfigStatus::Unreadable,
    ensures
        config_choice(st) == ConfigChoice::NotFound,
{
    lemma_none_readable_from(st, 0);
}

proof fn lemma_none_readable_from(st: Seq<ConfigStatus>, j: int)
    requires
        0 <= j <= st.len(),
        forall|k: int| 0 <= k < st.len() ==> st[k] == ConfigStatus::Unreadable,
    ensures
        first_readable_from(st, j) is None,
    decreases st.len() - j,
{
    if j < st.len() {
        lemma_none_readable_from(st, j + 1);
    }
}

/// The user configuration directory: `$XDG_CONFIG_HOME/hyprcircl` when that
/// variable is set and not empty, else `$HOME/.config/hyprcircl` when
/// `$HOME` is set and not empty, else `.config/hyprcircl`. An unset
/// variable and an empty one give the same directory.
pub proof fn lemma_config_dir(xdg: Option<Seq<char>>, home: Option<Seq<char>>)
    ensures
        config_dir(None, home) == config_dir(Some(Seq::<char>::empty()), home),
        config_dir(xdg, None) == config_dir(xdg, Some(Seq::<char>::empty())),
        xdg is Some && xdg->0.len() > 0 ==> config_dir(xdg, home) == join_path(xdg->0, "hyprcircl"@),
        (xdg is None || xdg == Some(Seq::<char>::empty())) ==> ({
            &&& home is Some && home->0.len() > 0 ==> config_dir(xdg, home) == join_path(home->0, ".config/hyprcircl"@)
            &&& (home is None || home == Some(Seq::<char>::empty())) ==> config_dir(xdg, home) == ".config/hyprcircl"@
        }),
{
}

/// The generation number after a successful reload (wrapping).
pub fn next_generation(current: u64) -> (r: u64)
    ensures
        r == if current == u64::MAX {
            0
        } else {
            (current + 1) as u64
        },
{
    current.wrapping_add(1)
}

/// Tells when a watched file's contents changed since the last look.
pub struct ChangeDetector {
    pub last: Option<String>,
}

impl ChangeDetector {
    pub fn new() -> (r: ChangeDetector)
        ensures
            r.last.is_none(),
    {
        ChangeDetector { last: None }
    }

    /// Look at a fresh read of the file (`None`: it could not be read). A
    /// failed read is no change; a read that differs from the last
    /// remembered contents is one, and is remembered.
    pub fn observe(&mut self, contents: Option<String>) -> (changed: bool)
        ensures
            changed == (contents.is_some() && opt_view(contents) != opt_view(old(self).last)),
            changed ==> opt_view(final(self).last) == opt_view(contents),
            !changed ==> opt_view(final(self).last) == opt_view(old(self).last),
    {
        match contents {
            Some(c) => {
                let same = match &self.last {
                    Some(l) => str_eq(l.as_str(), c.as_str()),
                    None => false,
                };
                if same {
                    false
                } else {
                    self.last = Some(c);
                    true
                }
            },
            None => false,
        }
    }
}


/// What one look at the watched configuration file did.
#[derive(Clone, Copy, Debug, PartialEq, Eq, Structural)]
pub enum ReloadOutcome {
    /// Unreadable, or the same contents as last time: nothing changes.
    Unchanged,
    /// New contents that do not parse: the configuration in use stays.
    Rejected,
    /// New contents that parse: swapped in, with the next generation.
    Swapped,
}

/// One step of watching the configuration file: `contents` is a fresh read
/// (`None`: unreadable) and `parsed` what parsing it gave (`None`: it does
/// not parse). New contents that parse replace `config` and advance
/// `generation` (wrapping); anything else keeps both as they are.
pub fn reload_step<C>(
    detector: &mut ChangeDetector,
    contents: Option<String>,
    parsed: Option<C>,
    config: &mut C,
    generation: &mut u64,
) -> (r: ReloadOutcome)
    ensures
        ({
            let changed = contents.is_some() && opt_view(contents) != opt_view(old(detector).last);
            &&& r == if !changed {
                ReloadOutcome::Unchanged
            } else if parsed is Some {
                ReloadOutcome::Swapped
            } else {
                ReloadOutcome::Rejected
            }
            &&& changed ==> opt_view(final(detector).last) == opt_view(contents)
            &&& !changed ==> opt_view(final(detector).last) == opt_view(old(detector).last)
        }),
        r is Swapped ==> parsed == Some(*final(config)) && *final(generation) == if *old(generation)
            == u64::MAX {
            0
        } else {
            (*old(generation) + 1) as u64
        },
        !(r is Swapped) ==> *final(config) == *old(config) && *final(generation) == *old(generation),
{
    if !detector.observe(contents) {
        return ReloadOutcome::Unchanged;
    }
    match parsed {
        Some(c) => {
            *config = c;
            *generation = next_generation(*generation);
            ReloadOutcome::Swapped
        },
        None => ReloadOutcome::Rejected,
    }
}

// ---------------------------------------------------------------------
// Which stylesheet loads
// ---------------------------------------------------------------------

/// What `std::path::Path::parent` gives for a path, as text.
pub uninterp spec fn path_parent(p: Seq<char>) -> Option<Seq<char>>;

/// `std::path::Path::parent`: the path without its last component; `None`
/// for a root or an empty path.
#[verifier::external_body]
fn parent_of(p: &str) -> (r: Option<String>)
    ensures
        opt_view(r) == path_parent(p@),
{
    match std::path::Path::new(p).parent() {
        Some(q) => Some(q.to_string_lossy().into_owned()),
        None => None,
    }
}

/// The directory of a file path, `.` when it has none (a bare file name
/// must not become a probe of the filesystem root).
pub open spec fn dir_of(p: Seq<char>) -> Seq<char> {
    match path_parent(p) {
        Some(d) => if d.len() > 0 {
            d
        } else {
            "."@
        },
        None => "."@,
    }
}

fn directory_of(p: &str) -> (r: String)
    ensures
        r@ == dir_of(p@),
{
    match parent_of(p) {
        Some(d) => if d.as_str().unicode_len() > 0 {
            d
        } else {
            ".".to_string()
        },
        None => ".".to_string(),
    }
}

/// Directories to look for `hyprcircl.css` in, before duplicates are
/// dropped: the directory of the configuration that loaded, then those of
/// all candidate configuration paths in priority order.
pub open spec fn css_dir_candidates(config_file: Option<Seq<char>>, paths: Seq<Seq<char>>) -> Seq<
    Seq<char>,
> {
    (match config_file {
        Some(c) => seq![dir_of(c)],
        None => Seq::empty(),
    }) + paths.map_values(|p: Seq<char>| dir_of(p))
}

/// The first `n` entries of `s` with later repeats dropped.
pub open spec fn dedup(s: Seq<Seq<char>>, n: int) -> Seq<Seq<char>>
    decreases n,
{
    if n <= 0 {
        Seq::empty()
    } else {
        let d = dedup(s, n - 1);
        if d.contains(s[n - 1]) {
            d
        } else {
            d.push(s[n - 1])
        }
    }
}

fn contains_text(v: &Vec<String>, x: &str) -> (r: bool)
    ensures
        r == strings_view(v@).contains(x@),
{
    let mut i: usize = 0;
    while i < v.len()
        invariant
            i <= v@.len(),
            forall|k: int| 0 <= k < i ==> v@[k]@ != x@,
        decreases v@.len() - i,
    {
        if str_eq(v[i].as_str(), x) {
            assert(strings_view(v@)[i as int] == x@);
            return true;
        }
        i = i + 1;
    }
    proof {
        if strings_view(v@).contains(x@) {
            let k = choose|k: int| 0 <= k < strings_view(v@).len() && strings_view(v@)[k] == x@;
            assert(v@[k]@ == x@);
        }
    }
    false
}

/// Directories to look for `hyprcircl.css` in, in order and without
/// repeats, given the configuration file that loaded (if any) and the
/// candidate configuration paths.
pub fn css_search_dirs(config_file: &Option<String>, paths: &Vec<String>) -> (r: Vec<String>)
    ensures
        strings_view(r@) == ({
            let c = css_dir_candidates(opt_view(*config_file), strings_view(paths@));
            dedup(c, c.len() as int)
        }),
{
    let ghost c = css_dir_candidates(opt_view(*config_file), strings_view(paths@));
    let mut cand: Vec<String> = Vec::new();
    match config_file {
        Some(f) => cand.push(directory_of(f.as_str())),
        None => {},
    }
    let ghost head = strings_view(cand@);
    let ghost pv = strings_view(paths@);
    let mut i: usize = 0;
    while i < paths.len()
        invariant
            pv == strings_view(paths@),
            i <= paths@.len(),
            strings_view(cand@).len() == head.len() + i,
            forall|k: int| 0 <= k < head.len() ==> strings_view(cand@)[k] == head[k],
            forall|k: int| 0 <= k < i ==> strings_view(cand@)[head.len() + k] == dir_of(pv[k]),
        decreases paths@.len() - i,
    {
        let d = directory_of(paths[i].as_str());
        cand.push(d);
        i = i + 1;
    }
    assert(head =~= match opt_view(*config_file) {
        Some(f) => seq![dir_of(f)],
        None => Seq::<Seq<char>>::empty(),
    });
    assert(strings_view(cand@) =~= c) by {
        assert forall|k: int| 0 <= k < c.len() implies strings_view(cand@)[k] == c[k] by {
            if k >= head.len() {
                assert(strings_view(cand@)[head.len() + (k - head.len())] == dir_of(pv[k - head.len()]));
            }
        }
    }
    let mut dirs: Vec<String> = Vec::new();
    let mut k: usize = 0;
    assert(strings_view(dirs@) =~= dedup(c, 0));
    while k < cand.len()
        invariant
            c == strings_view(cand@),
            k <= cand@.len(),
            strings_view(dirs@) == dedup(c, k as int),
        decreases cand@.len() - k,
    {
        if !contains_text(&dirs, cand[k].as_str()) {
            let ghost before = strings_view(dirs@);
            dirs.push(cand[k].clone());
            assert(strings_view(dirs@) =~= before.push(c[k as int]));
        }
        k = k + 1;
    }
    dirs
}

/// The stylesheet to load: `hyprcircl.css` in the first search directory
/// that has one. `exists[i]` tells whether `dirs[i]/hyprcircl.css` exists.
pub fn find_css_path(dirs: &Vec<String>, exists: &Vec<bool>) -> (r: Option<String>)
    requires
        exists@.len() == dirs@.len(),
    ensures
        match first_true(exists@) {
            Some(i) => 0 <= i < dirs@.len() && opt_view(r) == Some(
                join_path(dirs@[i]@, "hyprcircl.css"@),
            ),
            None => r is None,
        },
{
    match find_first(exists) {
        Some(i) => Some(path_join(dirs[i].as_str(), "hyprcircl.css")),
        None => None,
    }
}

/// The search directories hold no repeats, and are exactly the candidate
/// directories.
pub proof fn lemma_dedup(s: Seq<Seq<char>>, n: int)
    requires
        0 <= n <= s.len(),
    ensures
        forall|i: int, j: int|
            0 <= i < j < dedup(s, n).len() ==> dedup(s, n)[i] != dedup(s, n)[j],
        forall|x: Seq<char>| dedup(s, n).contains(x) <==> s.subrange(0, n).contains(x),
    decreases n,
{
    if n == 0 {
        assert(s.subrange(0, 0) =~= Seq::<Seq<char>>::empty());
    } else {
        lemma_dedup(s, n - 1);
        let d = dedup(s, n - 1);
        let y = s[n - 1];
        assert forall|x: Seq<char>| s.subrange(0, n).contains(x) <==> (s.subrange(0, n - 1).contains(x)
            || x == y) by {
            if s.subrange(0, n).contains(x) {
                let k = choose|k: int| 0 <= k < n && #[trigger] s.subrange(0, n)[k] == x;
                if k < n - 1 {
                    assert(s.subrange(0, n - 1)[k] == x);
                }
            }
            if s.subrange(0, n - 1).contains(x) {
                let k = choose|k: int| 0 <= k < n - 1 && #[trigger] s.subrange(0, n - 1)[k] == x;
                assert(s.subrange(0, n)[k] == x);
            }
            if x == y {
                assert(s.subrange(0, n)[n - 1] == x);
            }
        }
        if d.contains(y) {
            assert forall|x: Seq<char>| dedup(s, n).contains(x) <==> s.subrange(0, n).contains(x) by {
                assert(dedup(s, n) == d);
                assert(d.contains(x) <==> s.subrange(0, n - 1).contains(x));
            }
        } else {
            assert forall|x: Seq<char>| d.push(y).contains(x) <==> (d.contains(x) || x == y) by {
                if d.push(y).contains(x) {
                    let k = choose|k: int| 0 <= k < d.len() + 1 && #[trigger] d.push(y)[k] == x;
                    if k < d.len() {
                        assert(d[k] == x);
                    }
                }
                if d.contains(x) {
                    let k = choose|k: int| 0 <= k < d.len() && #[trigger] d[k] == x;
                    assert(d.push(y)[k] == x);
                }
                if x == y {
                    assert(d.push(y)[d.len() as int] == x);
                }
            }
            assert forall|i: int, j: int| 0 <= i < j < d.push(y).len() implies d.push(y)[i] != d.push(
                y,
            )[j] by {
                if j == d.len() {
                    assert(d.contains(d[i]));
                }
            }
            assert forall|x: Seq<char>| dedup(s, n).contains(x) <==> s.subrange(0, n).contains(x) by {
                assert(dedup(s, n) == d.push(y));
                assert(d.contains(x) <==> s.subrange(0, n - 1).contains(x));
            }
        }
    }
}


/// No directory searched for the stylesheet is empty: a configuration
/// named by a bare file name is looked beside in `.`.
pub proof fn lemma_search_dirs_nonempty(config_file: Option<Seq<char>>, paths: Seq<Seq<char>>)
    ensures
        ({
            let c = css_dir_candidates(config_file, paths);
            forall|k: int| 0 <= k < dedup(c, c.len() as int).len() ==> (#[trigger] dedup(c, c.len() as int)[k]).len() > 0
        }),
{
    reveal_strlit(".");
    let c = css_dir_candidates(config_file, paths);
    let d = dedup(c, c.len() as int);
    lemma_dedup(c, c.len() as int);
    assert(c.subrange(0, c.len() as int) =~= c);
    assert forall|k: int| 0 <= k < d.len() implies (#[trigger] d[k]).len() > 0 by {
        assert(d.contains(d[k]));
        let j = choose|j: int| 0 <= j < c.len() && c[j] == d[k];
        match config_file {
            Some(f) => {
                if j > 0 {
                    assert(c[j] == dir_of(paths[j - 1]));
                }
            },
            None => {
                assert(c[j] == dir_of(paths[j]));
            },
        }
    }
}

} // verus!
