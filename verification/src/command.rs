//! How menu commands are launched and shown, the single-instance daemon's
//! messages and socket location, stream restart back-off, and the command
//! line.
use vstd::prelude::*;
use crate::text::{
    white, is_white, str_eq, chars_of, string_of_range, strings_view, join_words, join_space,
    concat, opt_view,
};
use crate::config::{join_path, set_nonempty, path_join};

verus! {

broadcast use vstd::string::group_string_axioms;

// ---------------------------------------------------------------------
// Menu commands
// ---------------------------------------------------------------------

/// Characters of shell syntax: expansions, pipes, redirection, globs,
/// grouping, quotes, escapes and newlines.
pub open spec fn shell_meta(c: char) -> bool {
    c == '$' || c == '`' || c == '|' || c == ';' || c == '&' || c == '>' || c == '<' || c == '('
        || c == ')' || c == '*' || c == '?' || c == '[' || c == ']' || c == '{' || c == '}' || c
        == '~' || c == '\\' || c == '"' || c == '\'' || c == '\n'
}

/// Some argument carries shell syntax, so the command must run through
/// `sh -c` rather than as a plain argument vector.
pub open spec fn wants_shell(args: Seq<Seq<char>>) -> bool {
    exists|i: int, k: int| 0 <= i < args.len() && 0 <= k < args[i].len() && shell_meta(#[trigger] args[i][k])
}

/// A command runs through `sh -c` exactly when some argument holds one of
/// the characters `$`, backquote, `|`, `;`, `&`, `>`, `<`, `(`, `)`, `*`,
/// `?`, `[`, `]`, `{`, `}`, `~`, backslash, `"`, `'` or a newline; in
/// particular an argument with a `~` (a home-relative path) gets a shell,
/// which expands it.
pub proof fn lemma_shell_launch(args: Seq<Seq<char>>)
    ensures
        wants_shell(args) <==> exists|i: int, k: int|
            #![trigger args[i][k]]
            0 <= i < args.len() && 0 <= k < args[i].len() && (args[i][k] == '$' || args[i][k] == '`'
                || args[i][k] == '|' || args[i][k] == ';' || args[i][k] == '&' || args[i][k] == '>'
                || args[i][k] == '<' || args[i][k] == '(' || args[i][k] == ')' || args[i][k] == '*'
                || args[i][k] == '?' || args[i][k] == '[' || args[i][k] == ']' || args[i][k] == '{'
                || args[i][k] == '}' || args[i][k] == '~' || args[i][k] == '\\' || args[i][k] == '"'
                || args[i][k] == '\'' || args[i][k] == '\n'),
        forall|i: int, k: int|
            0 <= i < args.len() && 0 <= k < args[i].len() && #[trigger] args[i][k] == '~'
                ==> wants_shell(args),
{
    assert forall|i: int, k: int|
        0 <= i < args.len() && 0 <= k < args[i].len() && #[trigger] args[i][k] == '~' implies wants_shell(
        args,
    ) by {
        assert(shell_meta(args[i][k]));
    }
}

fn is_shell_meta(c: char) -> (r: bool)
    ensures
        r == shell_meta(c),
{
    c == '$' || c == '`' || c == '|' || c == ';' || c == '&' || c == '>' || c == '<' || c == '('
        || c == ')' || c == '*' || c == '?' || c == '[' || c == ']' || c == '{' || c == '}' || c
        == '~' || c == '\\' || c == '"' || c == '\'' || c == '\n'
}

/// True when any argument carries shell syntax (`$(...)`, pipes,
/// redirection, globs, quotes, ...).
pub fn needs_shell(command: &Vec<String>) -> (r: bool)
    ensures
        r == wants_shell(strings_view(command@)),
{
    let ghost a = strings_view(command@);
    let mut i: usize = 0;
    while i < command.len()
        invariant
            a == strings_view(command@),
            i <= command@.len(),
            forall|j: int, k: int| 0 <= j < i && 0 <= k < a[j].len() ==> !shell_meta(#[trigger] a[j][k]),
        decreases command@.len() - i,
    {
        let cs = chars_of(command[i].as_str());
        let mut k: usize = 0;
        while k < cs.len()
            invariant
                a == strings_view(command@),
                i < command@.len(),
                cs@ == a[i as int],
                k <= cs@.len(),
                forall|j: int, m: int| 0 <= j < i && 0 <= m < a[j].len() ==> !shell_meta(#[trigger] a[j][m]),
                forall|m: int| 0 <= m < k ==> !shell_meta(#[trigger] a[i as int][m]),
            decreases cs@.len() - k,
        {
            if is_shell_meta(cs[k]) {
                assert(shell_meta(a[i as int][k as int]));
                return true;
            }
            k = k + 1;
        }
        i = i + 1;
    }
    false
}

/// How a menu item's command runs.
#[derive(Debug, PartialEq)]
pub enum Launch {
    /// Nothing to run (submenu entries have no command).
    Nothing,
    /// `sh -c` with this line.
    Shell(String),
    /// Execute this argument vector directly.
    Exec(Vec<String>),
}

/// Plan the launch of a menu item's command: plain argument lists run
/// directly; anything with shell syntax is joined with spaces, verbatim,
/// and handed to `sh -c`.
pub fn menu_launch(command: &Vec<String>) -> (r: Launch)
    ensures
        command@.len() == 0 ==> r is Nothing,
        command@.len() > 0 && wants_shell(strings_view(command@)) ==> (r matches Launch::Shell(line)
            && line@ == join_words(strings_view(command@))),
        command@.len() > 0 && !wants_shell(strings_view(command@)) ==> (r matches Launch::Exec(argv)
            && argv@ == command@),
{
    if command.len() == 0 {
        Launch::Nothing
    } else if needs_shell(command) {
        Launch::Shell(join_space(command))
    } else {
        Launch::Exec(command.clone())
    }
}

/// An argument that needs quoting to stay readable: it holds white space
/// or a quote character.
pub open spec fn needs_quotes(a: Seq<char>) -> bool {
    exists|k: int| 0 <= k < a.len() && (white(#[trigger] a[k]) || a[k] == '\'' || a[k] == '"')
}

/// `a` with each `'` written as `'"'"'`.
pub open spec fn escape_quotes(a: Seq<char>) -> Seq<char>
    decreases a.len(),
{
    if a.len() == 0 {
        Seq::empty()
    } else {
        let head = if a[0] == '\'' {
            seq!['\'', '"', '\'', '"', '\'']
        } else {
            seq![a[0]]
        };
        head + escape_quotes(a.drop_first())
    }
}

/// How an argument is shown: single-quoted (with its single quotes escaped)
/// when it needs quotes, as it is otherwise.
pub open spec fn shown_arg(a: Seq<char>) -> Seq<char> {
    if needs_quotes(a) {
        seq!['\''] + escape_quotes(a) + seq!['\'']
    } else {
        a
    }
}

fn quoted_arg(a: &str) -> (r: String)
    ensures
        r@ == shown_arg(a@),
{
    let cs = chars_of(a);
    let mut needs = false;
    let mut i: usize = 0;
    while i < cs.len()
        invariant
            cs@ == a@,
            i <= cs@.len(),
            needs == exists|k: int| 0 <= k < i && (white(#[trigger] cs@[k]) || cs@[k] == '\'' || cs@[k] == '"'),
        decreases cs@.len() - i,
    {
        let c = cs[i];
        if is_white(c) || c == '\'' || c == '"' {
            needs = true;
        }
        i = i + 1;
    }
    if !needs {
        return a.to_string();
    }
    let mut out: Vec<char> = Vec::new();
    out.push('\'');
    let mut j: usize = 0;
    assert(cs@.subrange(0, cs@.len() as int) =~= cs@);
    assert(out@ =~= seq!['\'']);
    while j < cs.len()
        invariant
            cs@ == a@,
            j <= cs@.len(),
            out@ + escape_quotes(cs@.subrange(j as int, cs@.len() as int)) == seq!['\''] + escape_quotes(cs@),
        decreases cs@.len() - j,
    {
        let ghost before = out@;
        let ghost tail = cs@.subrange(j as int, cs@.len() as int);
        assert(tail.drop_first() =~= cs@.subrange(j + 1, cs@.len() as int));
        if cs[j] == '\'' {
            out.push('\'');
            out.push('"');
            out.push('\'');
            out.push('"');
            out.push('\'');
            assert(out@ =~= before + seq!['\'', '"', '\'', '"', '\'']);
        } else {
            out.push(cs[j]);
            assert(out@ =~= before + seq![cs@[j as int]]);
        }
        assert(out@ + escape_quotes(cs@.subrange(j + 1, cs@.len() as int)) =~= before
            + escape_quotes(tail));
        j = j + 1;
    }
    assert(cs@.subrange(cs@.len() as int, cs@.len() as int) =~= Seq::<char>::empty());
    assert(escape_quotes(Seq::<char>::empty()) =~= Seq::<char>::empty());
    assert(cs@.subrange(0, cs@.len() as int) =~= cs@);
    out.push('\'');
    assert(out@ =~= shown_arg(a@));
    assert(out@.subrange(0, out@.len() as int) =~= out@);
    string_of_range(&out, 0, out.len())
}

/// A command as shown in a notification: the shown arguments joined with
/// spaces.
pub open spec fn shown_command(args: Seq<Seq<char>>) -> Seq<char> {
    join_words(args.map_values(|a: Seq<char>| shown_arg(a)))
}

/// Render a command for display (notify-only mode): arguments containing
/// white space or quotes are single-quoted so the text stays readable.
pub fn display_command(command: &Vec<String>) -> (r: String)
    ensures
        r@ == shown_command(strings_view(command@)),
{
    let mut shown: Vec<String> = Vec::new();
    let mut i: usize = 0;
    while i < command.len()
        invariant
            i <= command@.len(),
            shown@.len() == i,
            forall|k: int| 0 <= k < i ==> #[trigger] shown@[k]@ == shown_arg(command@[k]@),
        decreases command@.len() - i,
    {
        let q = quoted_arg(command[i].as_str());
        shown.push(q);
        i = i + 1;
    }
    assert(strings_view(shown@) =~= strings_view(command@).map_values(|a: Seq<char>| shown_arg(a)));
    join_space(&shown)
}

// ---------------------------------------------------------------------
// Stream restarts
// ---------------------------------------------------------------------

/// Two to the power `n`.
pub open spec fn pow2(n: nat) -> nat
    decreases n,
{
    if n == 0 {
        1
    } else {
        2 * pow2((n - 1) as nat)
    }
}

/// Milliseconds to wait before restarting a stream command that failed
/// `failures` times in a row: 250 ms doubled per failure (the doubling
/// stops after seven), at most 30 s.
pub open spec fn backoff_ms(failures: u32) -> nat {
    let d = 250 * pow2(if failures < 7 {
        failures as nat
    } else {
        7
    });
    if d < 30000 {
        d
    } else {
        30000
    }
}

/// Respawn back-off for a failing stream command, in milliseconds.
pub fn stream_backoff(failures: u32) -> (ms: u64)
    ensures
        ms == backoff_ms(failures),
{
    let n: u32 = if failures < 7 {
        failures
    } else {
        7
    };
    let mut d: u64 = 250;
    let mut k: u32 = 0;
    while k < n
        invariant
            k <= n <= 7,
            d == 250 * pow2(k as nat),
            d <= 250 * 128,
        decreases n - k,
    {
        proof {
            lemma_pow2_le(k as nat);
        }
        d = d * 2;
        k = k + 1;
    }
    if d < 30000 {
        d
    } else {
        30000
    }
}

proof fn lemma_pow2_le(k: nat)
    requires
        k < 7,
    ensures
        pow2(k + 1) <= 128,
        pow2(k + 1) == 2 * pow2(k),
{
    reveal_with_fuel(pow2, 8);
    assert(k == 0 || k == 1 || k == 2 || k == 3 || k == 4 || k == 5 || k == 6);
}

/// The back-off never shrinks as failures accumulate, and never exceeds 30 s.
pub proof fn lemma_backoff_monotone(a: u32, b: u32)
    requires
        a <= b,
    ensures
        backoff_ms(a) <= backoff_ms(b),
        backoff_ms(b) <= 30000,
{
    let ea: nat = if a < 7 {
        a as nat
    } else {
        7
    };
    let eb: nat = if b < 7 {
        b as nat
    } else {
        7
    };
    lemma_pow2_monotone(ea, eb);
}

proof fn lemma_pow2_monotone(a: nat, b: nat)
    requires
        a <= b,
    ensures
        pow2(a) <= pow2(b),
    decreases b,
{
    if a < b {
        lemma_pow2_monotone(a, (b - 1) as nat);
    }
}

// ---------------------------------------------------------------------
// The single-instance daemon
// ---------------------------------------------------------------------

/// A message to the running daemon.
#[derive(Clone, Copy, Debug, PartialEq, Eq, Structural)]
pub enum DaemonCmd {
    Toggle,
    Show,
    Hide,
    Quit,
}

/// The bytes of an ASCII text.
pub open spec fn ascii_bytes(s: Seq<char>) -> Seq<u8> {
    s.map_values(|c: char| c as u8)
}

/// The message the daemon understands for a bytes payload: `toggle`,
/// `show`, `hide`, and `quit` or `exit`.
pub open spec fn daemon_message(b: Seq<u8>) -> Option<DaemonCmd> {
    if b == ascii_bytes("toggle"@) {
        Some(DaemonCmd::Toggle)
    } else if b == ascii_bytes("show"@) {
        Some(DaemonCmd::Show)
    } else if b == ascii_bytes("hide"@) {
        Some(DaemonCmd::Hide)
    } else if b == ascii_bytes("quit"@) || b == ascii_bytes("exit"@) {
        Some(DaemonCmd::Quit)
    } else {
        None
    }
}

/// The bytes sent for each message.
pub open spec fn daemon_payload(c: DaemonCmd) -> Seq<u8> {
    match c {
        DaemonCmd::Toggle => ascii_bytes("toggle"@),
        DaemonCmd::Show => ascii_bytes("show"@),
        DaemonCmd::Hide => ascii_bytes("hide"@),
        DaemonCmd::Quit => ascii_bytes("quit"@),
    }
}

fn bytes_are(b: &[u8], lit: &str) -> (r: bool)
    ensures
        r == (b@ == ascii_bytes(lit@)),
{
    let n = lit.unicode_len();
    if b.len() != n {
        return false;
    }
    let mut i: usize = 0;
    while i < n
        invariant
            n == lit@.len(),
            b@.len() == n,
            i <= n,
            forall|k: int| 0 <= k < i ==> b@[k] == lit@[k] as u8,
        decreases n - i,
    {
        if b[i] != lit.get_char(i) as u8 {
            assert(ascii_bytes(lit@)[i as int] != b@[i as int]);
            return false;
        }
        i = i + 1;
    }
    assert(b@ =~= ascii_bytes(lit@));
    true
}

fn bytes_of(lit: &str) -> (r: Vec<u8>)
    ensures
        r@ == ascii_bytes(lit@),
{
    let n = lit.unicode_len();
    let mut v: Vec<u8> = Vec::new();
    let mut i: usize = 0;
    while i < n
        invariant
            n == lit@.len(),
            i <= n,
            v@ == ascii_bytes(lit@.subrange(0, i as int)),
        decreases n - i,
    {
        v.push(lit.get_char(i) as u8);
        assert(ascii_bytes(lit@.subrange(0, i + 1)) =~= ascii_bytes(lit@.subrange(0, i as int)).push(
            lit@[i as int] as u8,
        ));
        i = i + 1;
    }
    assert(lit@.subrange(0, n as int) =~= lit@);
    v
}

impl DaemonCmd {
    /// The message a payload read from the daemon socket carries.
    pub fn parse(bytes: &[u8]) -> (r: Option<DaemonCmd>)
        ensures
            r == daemon_message(bytes@),
    {
        if bytes_are(bytes, "toggle") {
            Some(DaemonCmd::Toggle)
        } else if bytes_are(bytes, "show") {
            Some(DaemonCmd::Show)
        } else if bytes_are(bytes, "hide") {
            Some(DaemonCmd::Hide)
        } else if bytes_are(bytes, "quit") || bytes_are(bytes, "exit") {
            Some(DaemonCmd::Quit)
        } else {
            None
        }
    }

    /// The payload to send for this message.
    pub fn payload(self) -> (r: Vec<u8>)
        ensures
            r@ == daemon_payload(self),
    {
        match self {
            DaemonCmd::Toggle => bytes_of("toggle"),
            DaemonCmd::Show => bytes_of("show"),
            DaemonCmd::Hide => bytes_of("hide"),
            DaemonCmd::Quit => bytes_of("quit"),
        }
    }
}

/// Every message the client sends is understood by the daemon as that
/// same message.
pub proof fn lemma_payload_round_trip(c: DaemonCmd)
    ensures
        daemon_message(daemon_payload(c)) == Some(c),
{
    reveal_strlit("toggle");
    reveal_strlit("show");
    reveal_strlit("hide");
    reveal_strlit("quit");
    reveal_strlit("exit");
    let t = ascii_bytes("toggle"@);
    let s = ascii_bytes("show"@);
    let h = ascii_bytes("hide"@);
    let q = ascii_bytes("quit"@);
    assert(t.len() == 6 && s.len() == 4);
    assert(s[0] != h[0]);
    assert(s[0] != q[0] && h[0] != q[0]);
    assert(q[0] != ascii_bytes("exit"@)[0]);
}

/// What the daemon does with a message, given whether the menu is shown.
#[derive(Clone, Copy, Debug, PartialEq, Eq, Structural)]
pub enum DaemonAction {
    /// Remove the socket and exit.
    Exit,
    /// Hide the menu.
    Hide,
    /// Show the menu, reset to the root ring under the cursor.
    Show,
    /// Nothing to do.
    Nothing,
}

/// The daemon's answer to a message: `quit` exits; `hide`, or `toggle` while
/// shown, hides; `show`, or `toggle` while hidden, shows.
pub open spec fn reaction(cmd: Option<DaemonCmd>, shown: bool) -> DaemonAction {
    match cmd {
        Some(DaemonCmd::Quit) => DaemonAction::Exit,
        Some(DaemonCmd::Hide) => DaemonAction::Hide,
        Some(DaemonCmd::Show) => DaemonAction::Show,
        Some(DaemonCmd::Toggle) => if shown {
            DaemonAction::Hide
        } else {
            DaemonAction::Show
        },
        None => DaemonAction::Nothing,
    }
}

/// Whether the menu is shown after an action.
pub open spec fn shown_after(a: DaemonAction, shown: bool) -> bool {
    match a {
        DaemonAction::Show => true,
        DaemonAction::Hide => false,
        _ => shown,
    }
}

/// The daemon's answer to a message, given whether the menu is shown.
pub fn daemon_action(cmd: Option<DaemonCmd>, shown: bool) -> (r: DaemonAction)
    ensures
        r == reaction(cmd, shown),
{
    match cmd {
        Some(DaemonCmd::Quit) => DaemonAction::Exit,
        Some(DaemonCmd::Hide) => DaemonAction::Hide,
        Some(DaemonCmd::Show) => DaemonAction::Show,
        Some(DaemonCmd::Toggle) => if shown {
            DaemonAction::Hide
        } else {
            DaemonAction::Show
        },
        None => DaemonAction::Nothing,
    }
}

/// `toggle` flips whether the menu is shown, so two toggles in a row bring
/// it back to where it was; `show` and `hide` do the same whatever the
/// state.
pub proof fn lemma_toggle_flips(shown: bool)
    ensures
        shown_after(reaction(Some(DaemonCmd::Toggle), shown), shown) == !shown,
        ({
            let once = shown_after(reaction(Some(DaemonCmd::Toggle), shown), shown);
            shown_after(reaction(Some(DaemonCmd::Toggle), once), once) == shown
        }),
        shown_after(reaction(Some(DaemonCmd::Show), shown), shown),
        !shown_after(reaction(Some(DaemonCmd::Hide), shown), shown),
{
}

/// Directory for the daemon socket: `$XDG_RUNTIME_DIR`, else `$TMPDIR`,
/// else `$HOME/.cache` (each only when set and not empty).
pub open spec fn runtime_dir_of(
    xdg_runtime: Option<Seq<char>>,
    tmpdir: Option<Seq<char>>,
    home: Option<Seq<char>>,
) -> Option<Seq<char>> {
    match set_nonempty(xdg_runtime) {
        Some(d) => Some(d),
        None => match set_nonempty(tmpdir) {
            Some(d) => Some(d),
            None => match set_nonempty(home) {
                Some(h) => Some(join_path(h, ".cache"@)),
                None => None,
            },
        },
    }
}

fn value_if_set(v: &Option<String>) -> (r: Option<String>)
    ensures
        opt_view(r) == set_nonempty(opt_view(*v)),
{
    match v {
        Some(s) => if s.as_str().unicode_len() > 0 {
            Some(s.clone())
        } else {
            None
        },
        None => None,
    }
}

/// The per-user directory for the daemon socket, given `$XDG_RUNTIME_DIR`,
/// `$TMPDIR` and `$HOME`.
pub fn runtime_dir(xdg_runtime: &Option<String>, tmpdir: &Option<String>, home: &Option<String>) -> (r:
    Option<String>)
    ensures
        opt_view(r) == runtime_dir_of(opt_view(*xdg_runtime), opt_view(*tmpdir), opt_view(*home)),
{
    match value_if_set(xdg_runtime) {
        Some(d) => Some(d),
        None => match value_if_set(tmpdir) {
            Some(d) => Some(d),
            None => match value_if_set(home) {
                Some(h) => Some(path_join(h.as_str(), ".cache")),
                None => None,
            },
        },
    }
}

/// Path of the daemon socket: `hyprcircl.sock` in the runtime directory,
/// or in `/tmp` only when no per-user directory is known.
pub fn socket_path(xdg_runtime: &Option<String>, tmpdir: &Option<String>, home: &Option<String>) -> (r:
    String)
    ensures
        r@ == join_path(
            match runtime_dir_of(opt_view(*xdg_runtime), opt_view(*tmpdir), opt_view(*home)) {
                Some(d) => d,
                None => "/tmp"@,
            },
            "hyprcircl.sock"@,
        ),
{
    match runtime_dir(xdg_runtime, tmpdir, home) {
        Some(d) => path_join(d.as_str(), "hyprcircl.sock"),
        None => path_join("/tmp", "hyprcircl.sock"),
    }
}


// ---------------------------------------------------------------------
// The command line
// ---------------------------------------------------------------------

/// What a run of the program does once its arguments are read.
#[derive(Clone, Copy, Debug, PartialEq, Eq, Structural)]
pub enum CliCommand {
    /// Toggle the menu, starting the daemon on the first run.
    RunDaemon,
    /// Write a starter configuration and stylesheet.
    Init { force: bool },
    /// Print the configuration path in use.
    ConfigPath,
}

#[derive(Debug, PartialEq)]
pub struct CliOptions {
    /// Configuration file given with `-c`/`--config`.
    pub config: Option<String>,
    pub command: CliCommand,
}

/// A command line the program refuses (exit status 2).
#[derive(Debug, PartialEq)]
pub enum CliError {
    /// `-c`/`--config` as the last argument.
    MissingConfigPath,
    /// `config` followed by something other than `path`.
    UnknownConfigSubcommand(String),
    /// An unknown argument starting with `-`.
    UnknownOption(String),
    /// Any other unknown argument.
    UnknownCommand(String),
}

/// The result of reading the command line.
#[derive(Debug, PartialEq)]
pub enum CliOutcome {
    Run(CliOptions),
    /// `-h`/`--help`: print the usage and exit.
    Help,
    /// `-V`/`--version`: print the version and exit.
    Version,
    /// `show`, `hide`, `quit`/`exit`: send this message to the running daemon.
    Signal(DaemonCmd),
    Fail(CliError),
}

pub enum CliV {
    Run(Option<Seq<char>>, CliCommand),
    Help,
    Version,
    Signal(DaemonCmd),
    MissingConfigPath,
    UnknownConfigSubcommand(Seq<char>),
    UnknownOption(Seq<char>),
    UnknownCommand(Seq<char>),
}

impl View for CliOutcome {
    type V = CliV;

    open spec fn view(&self) -> CliV {
        match self {
            CliOutcome::Run(o) => CliV::Run(opt_view(o.config), o.command),
            CliOutcome::Help => CliV::Help,
            CliOutcome::Version => CliV::Version,
            CliOutcome::Signal(c) => CliV::Signal(*c),
            CliOutcome::Fail(CliError::MissingConfigPath) => CliV::MissingConfigPath,
            CliOutcome::Fail(CliError::UnknownConfigSubcommand(s)) => CliV::UnknownConfigSubcommand(s@),
            CliOutcome::Fail(CliError::UnknownOption(s)) => CliV::UnknownOption(s@),
            CliOutcome::Fail(CliError::UnknownCommand(s)) => CliV::UnknownCommand(s@),
        }
    }
}

/// Reading the arguments from `i` on, with the configuration path and
/// command read so far. Arguments are read left to right; help, version,
/// daemon messages and errors end the reading at once.
pub open spec fn cli_from(args: Seq<Seq<char>>, i: int, config: Option<Seq<char>>, cmd: CliCommand) -> CliV
    decreases args.len() - i,
{
    if i < 0 || i >= args.len() {
        CliV::Run(config, cmd)
    } else {
        let a = args[i];
        if a == "-h"@ || a == "--help"@ {
            CliV::Help
        } else if a == "-V"@ || a == "--version"@ {
            CliV::Version
        } else if a == "-c"@ || a == "--config"@ {
            if i + 1 >= args.len() {
                CliV::MissingConfigPath
            } else {
                cli_from(args, i + 2, Some(args[i + 1]), cmd)
            }
        } else if a == "--force"@ {
            cli_from(
                args,
                i + 1,
                config,
                if cmd is Init {
                    CliCommand::Init { force: true }
                } else {
                    cmd
                },
            )
        } else if a == "toggle"@ {
            cli_from(args, i + 1, config, CliCommand::RunDaemon)
        } else if a == "show"@ {
            CliV::Signal(DaemonCmd::Show)
        } else if a == "hide"@ {
            CliV::Signal(DaemonCmd::Hide)
        } else if a == "quit"@ || a == "exit"@ {
            CliV::Signal(DaemonCmd::Quit)
        } else if a == "init"@ {
            cli_from(args, i + 1, config, CliCommand::Init { force: false })
        } else if a == "config"@ {
            if i + 1 >= args.len() {
                cli_from(args, i + 1, config, CliCommand::ConfigPath)
            } else if args[i + 1] == "path"@ {
                cli_from(args, i + 2, config, CliCommand::ConfigPath)
            } else {
                CliV::UnknownConfigSubcommand(args[i + 1])
            }
        } else if a.len() > 0 && a[0] == '-' {
            CliV::UnknownOption(a)
        } else {
            CliV::UnknownCommand(a)
        }
    }
}

/// The meaning of a command line (without the program name).
pub open spec fn cli_meaning(args: Seq<Seq<char>>) -> CliV {
    cli_from(args, 0, None, CliCommand::RunDaemon)
}

/// An argument that sets the command and reads on: `toggle`, `init`,
/// `--force`.
pub open spec fn reads_on(a: Seq<char>) -> bool {
    a == "toggle"@ || a == "init"@ || a == "--force"@
}

proof fn reveal_cli_words()
    ensures
        "toggle"@ != "-h"@ && "toggle"@ != "--help"@ && "toggle"@ != "-V"@ && "toggle"@ != "--version"@
            && "toggle"@ != "-c"@ && "toggle"@ != "--config"@ && "toggle"@ != "--force"@,
        "init"@ != "-h"@ && "init"@ != "--help"@ && "init"@ != "-V"@ && "init"@ != "--version"@
            && "init"@ != "-c"@ && "init"@ != "--config"@ && "init"@ != "--force"@ && "init"@
            != "toggle"@,
        "--force"@ != "-h"@ && "--force"@ != "--help"@ && "--force"@ != "-V"@ && "--force"@
            != "--version"@ && "--force"@ != "-c"@ && "--force"@ != "--config"@,
        "-c"@ != "-h"@ && "-c"@ != "--help"@ && "-c"@ != "-V"@ && "-c"@ != "--version"@,
        "--config"@ != "-h"@ && "--config"@ != "--help"@ && "--config"@ != "-V"@ && "--config"@
            != "--version"@ && "--config"@ != "-c"@,
        "-h"@ != "-V"@ && "-h"@ != "--version"@ && "--help"@ != "-V"@ && "--help"@ != "--version"@,
        "init"@ != "show"@ && "init"@ != "hide"@ && "init"@ != "quit"@ && "init"@ != "exit"@,
{
    reveal_strlit("show");
    reveal_strlit("hide");
    reveal_strlit("quit");
    reveal_strlit("exit");
    reveal_strlit("-h");
    reveal_strlit("--help");
    reveal_strlit("-V");
    reveal_strlit("--version");
    reveal_strlit("-c");
    reveal_strlit("--config");
    reveal_strlit("--force");
    reveal_strlit("toggle");
    reveal_strlit("init");
    assert("-h"@[1] != "-V"@[1]);
    assert("-h"@[1] != "-c"@[1]);
    assert("-V"@[1] != "-c"@[1]);
    assert("toggle"@[0] != "--help"@[0]);
    assert("init"@.len() == 4 && "-h"@.len() == 2 && "--force"@.len() == 7);
    assert("--config"@.len() == 8 && "--version"@.len() == 9 && "--help"@.len() == 6);
    assert("toggle"@.len() == 6 && "-c"@.len() == 2 && "-V"@.len() == 2);
    assert("init"@[0] != "show"@[0] && "init"@[0] != "hide"@[0]);
    assert("init"@[0] != "quit"@[0] && "init"@[0] != "exit"@[0]);
}

proof fn lemma_ending_after_prefix(
    args: Seq<Seq<char>>,
    p: int,
    j: int,
    config: Option<Seq<char>>,
    cmd: CliCommand,
)
    requires
        0 <= j <= p < args.len(),
        forall|k: int| j <= k < p ==> reads_on(#[trigger] args[k]),
    ensures
        (args[p] == "-h"@ || args[p] == "--help"@) ==> cli_from(args, j, config, cmd) == CliV::Help,
        (args[p] == "-V"@ || args[p] == "--version"@) ==> cli_from(args, j, config, cmd)
            == CliV::Version,
    decreases p - j,
{
    reveal_cli_words();
    if j < p {
        assert(reads_on(args[j]));
        let next = if args[j] == "--force"@ {
            if cmd is Init {
                CliCommand::Init { force: true }
            } else {
                cmd
            }
        } else if args[j] == "toggle"@ {
            CliCommand::RunDaemon
        } else {
            CliCommand::Init { force: false }
        };
        assert(cli_from(args, j, config, cmd) == cli_from(args, j + 1, config, next));
        lemma_ending_after_prefix(args, p, j + 1, config, next);
    }
}

proof fn lemma_cli_reads_only_ahead(
    a: Seq<Seq<char>>,
    b: Seq<Seq<char>>,
    j: int,
    config: Option<Seq<char>>,
    cmd: CliCommand,
)
    requires
        0 <= j,
        a.len() == b.len(),
        forall|k: int| j <= k < a.len() ==> a[k] == b[k],
    ensures
        cli_from(a, j, config, cmd) == cli_from(b, j, config, cmd),
    decreases a.len() - j,
{
    if j < a.len() {
        if j + 2 <= a.len() {
            lemma_cli_reads_only_ahead(a, b, j + 2, Some(a[j + 1]), cmd);
        }
        lemma_cli_reads_only_ahead(a, b, j + 1, config, CliCommand::RunDaemon);
        lemma_cli_reads_only_ahead(a, b, j + 1, config, CliCommand::ConfigPath);
        lemma_cli_reads_only_ahead(a, b, j + 1, config, CliCommand::Init { force: false });
        lemma_cli_reads_only_ahead(a, b, j + 1, config, CliCommand::Init { force: true });
        lemma_cli_reads_only_ahead(a, b, j + 1, config, cmd);
        if j + 2 <= a.len() {
            lemma_cli_reads_only_ahead(a, b, j + 2, config, CliCommand::ConfigPath);
        }
    }
}

/// `-h` and `--help` ask for the usage, and `-V` and `--version` for the
/// version, wherever they stand, as long as only `toggle`, `init` and
/// `--force` come before them.
pub proof fn lemma_help_and_version(args: Seq<Seq<char>>, p: int)
    requires
        0 <= p < args.len(),
        forall|k: int| 0 <= k < p ==> reads_on(#[trigger] args[k]),
    ensures
        (args[p] == "-h"@ || args[p] == "--help"@) ==> cli_meaning(args) == CliV::Help,
        (args[p] == "-V"@ || args[p] == "--version"@) ==> cli_meaning(args) == CliV::Version,
{
    lemma_ending_after_prefix(args, p, 0, None, CliCommand::RunDaemon);
}

/// `-c PATH` and `--config PATH` mean the same, whatever follows; alone
/// they run the daemon with that configuration, and either one without a
/// path is refused.
pub proof fn lemma_config_option(path: Seq<char>, rest: Seq<Seq<char>>)
    ensures
        cli_meaning(seq!["-c"@, path] + rest) == cli_meaning(seq!["--config"@, path] + rest),
        cli_meaning(seq!["-c"@, path]) == CliV::Run(Some(path), CliCommand::RunDaemon),
        cli_meaning(seq!["--config"@, path]) == CliV::Run(Some(path), CliCommand::RunDaemon),
        cli_meaning(seq!["-c"@]) == CliV::MissingConfigPath,
        cli_meaning(seq!["--config"@]) == CliV::MissingConfigPath,
{
    reveal_cli_words();
    let a = seq!["-c"@, path] + rest;
    let b = seq!["--config"@, path] + rest;
    assert(a[0] == "-c"@ && a[1] == path);
    assert(b[0] == "--config"@ && b[1] == path);
    lemma_cli_reads_only_ahead(a, b, 2, Some(path), CliCommand::RunDaemon);
    let a2 = seq!["-c"@, path];
    let b2 = seq!["--config"@, path];
    assert(a2[0] == "-c"@);
    assert(b2[0] == "--config"@);
    assert(cli_from(a2, 2, Some(path), CliCommand::RunDaemon) == CliV::Run(Some(path), CliCommand::RunDaemon));
    assert(cli_from(b2, 2, Some(path), CliCommand::RunDaemon) == CliV::Run(Some(path), CliCommand::RunDaemon));
    let a1 = seq!["-c"@];
    let b1 = seq!["--config"@];
    assert(a1[0] == "-c"@);
    assert(b1[0] == "--config"@);
}

/// Read the command line (the arguments after the program name).
pub fn parse_cli(args: &Vec<String>) -> (r: CliOutcome)
    ensures
        r@ == cli_meaning(strings_view(args@)),
{
    let ghost a = strings_view(args@);
    let mut config: Option<String> = None;
    let mut command = CliCommand::RunDaemon;
    let mut i: usize = 0;
    while i < args.len()
        invariant
            a == strings_view(args@),
            i <= args@.len(),
            cli_from(a, i as int, opt_view(config), command) == cli_meaning(a),
        decreases args@.len() - i,
    {
        let arg = args[i].as_str();
        assert(a[i as int] == arg@);
        if str_eq(arg, "-h") || str_eq(arg, "--help") {
            return CliOutcome::Help;
        } else if str_eq(arg, "-V") || str_eq(arg, "--version") {
            return CliOutcome::Version;
        } else if str_eq(arg, "-c") || str_eq(arg, "--config") {
            if i + 1 >= args.len() {
                return CliOutcome::Fail(CliError::MissingConfigPath);
            }
            assert(a[i + 1] == args@[i + 1]@);
            config = Some(args[i + 1].clone());
            i = i + 2;
        } else if str_eq(arg, "--force") {
            if let CliCommand::Init { .. } = command {
                command = CliCommand::Init { force: true };
            }
            i = i + 1;
        } else if str_eq(arg, "toggle") {
            command = CliCommand::RunDaemon;
            i = i + 1;
        } else if str_eq(arg, "show") {
            return CliOutcome::Signal(DaemonCmd::Show);
        } else if str_eq(arg, "hide") {
            return CliOutcome::Signal(DaemonCmd::Hide);
        } else if str_eq(arg, "quit") || str_eq(arg, "exit") {
            return CliOutcome::Signal(DaemonCmd::Quit);
        } else if str_eq(arg, "init") {
            command = CliCommand::Init { force: false };
            i = i + 1;
        } else if str_eq(arg, "config") {
            if i + 1 >= args.len() {
                command = CliCommand::ConfigPath;
                i = i + 1;
            } else {
                assert(a[i + 1] == args@[i + 1]@);
                if str_eq(args[i + 1].as_str(), "path") {
                    command = CliCommand::ConfigPath;
                    i = i + 2;
                } else {
                    return CliOutcome::Fail(CliError::UnknownConfigSubcommand(args[i + 1].clone()));
                }
            }
        } else if arg.unicode_len() > 0 && arg.get_char(0) == '-' {
            return CliOutcome::Fail(CliError::UnknownOption(args[i].clone()));
        } else {
            return CliOutcome::Fail(CliError::UnknownCommand(args[i].clone()));
        }
    }
    CliOutcome::Run(CliOptions { config, command })
}

} // verus!
