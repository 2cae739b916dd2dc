//! The top pill's modules: which modules show and what each one says,
//! which command a click or scroll over a module runs, and when a module's
//! command runs again.
use vstd::prelude::*;
use crate::text::{white, is_white, chars_of, string_of_range, strings_view};
use crate::config::{BarModule, TopBarConfig};
use crate::command::backoff_ms;

verus! {

broadcast use vstd::string::group_string_axioms;

/// `pat` occurs in `s` at position `i`.
pub open spec fn occurs_at(s: Seq<char>, pat: Seq<char>, i: int) -> bool {
    0 <= i && i + pat.len() <= s.len() && s.subrange(i, i + pat.len()) == pat
}

/// `s` from position `i` on, with each occurrence of `pat` (left to right,
/// not overlapping) replaced by `rep`.
pub open spec fn replace_from(s: Seq<char>, pat: Seq<char>, rep: Seq<char>, i: int) -> Seq<char>
    decreases s.len() - i,
{
    if i < 0 || i >= s.len() {
        Seq::empty()
    } else if pat.len() > 0 && occurs_at(s, pat, i) {
        rep + replace_from(s, pat, rep, i + pat.len())
    } else {
        seq![s[i]] + replace_from(s, pat, rep, i + 1)
    }
}

/// `s` with every occurrence of `pat` replaced by `rep` (`str::replace`).
pub open spec fn replace_all(s: Seq<char>, pat: Seq<char>, rep: Seq<char>) -> Seq<char> {
    replace_from(s, pat, rep, 0)
}

/// Every character of `s` is white space (`s.trim()` is empty).
pub open spec fn blank(s: Seq<char>) -> bool {
    forall|k: int| 0 <= k < s.len() ==> white(#[trigger] s[k])
}

/// The placeholder that a module's format replaces with the command output.
pub open spec fn placeholder() -> Seq<char> {
    "{output}"@
}

/// What a module says: its format with the output put in, after its icon
/// and a space when it has an icon.
pub open spec fn module_text(format: Seq<char>, icon: Seq<char>, out: Seq<char>) -> Seq<char> {
    let body = replace_all(format, placeholder(), out);
    if icon.len() == 0 {
        body
    } else {
        icon + seq![' '] + body
    }
}

/// Whether a module shows: a format with the placeholder shows whenever its
/// text is not blank; a literal format (a status glyph) shows only while
/// its command produces output.
pub open spec fn module_visible(format: Seq<char>, icon: Seq<char>, out: Seq<char>) -> bool {
    if exists|k: int| occurs_at(format, placeholder(), k) {
        !blank(module_text(format, icon, out))
    } else {
        !blank(out)
    }
}

/// The latest output of module `i` (empty when there is none yet).
pub open spec fn output_of(outputs: Seq<Seq<char>>, i: int) -> Seq<char> {
    if 0 <= i < outputs.len() {
        outputs[i]
    } else {
        Seq::empty()
    }
}

/// The visible modules among the first `n`, in order: their text and their
/// index in the module list.
pub open spec fn visible_upto(mods: Seq<BarModule>, outputs: Seq<Seq<char>>, n: int) -> Seq<
    (Seq<char>, int),
>
    decreases n,
{
    if n <= 0 {
        Seq::empty()
    } else {
        let prev = visible_upto(mods, outputs, n - 1);
        let m = mods[n - 1];
        let out = output_of(outputs, n - 1);
        if module_visible(m.format@, m.icon@, out) {
            prev.push((module_text(m.format@, m.icon@, out), n - 1))
        } else {
            prev
        }
    }
}

/// The visible modules of the pill, in order.
pub open spec fn visible_modules(cfg: TopBarConfig, outputs: Seq<Seq<char>>) -> Seq<(Seq<char>, int)> {
    visible_upto(cfg.modules@, outputs, cfg.modules@.len() as int)
}

/// The text the pill shows: one entry per visible module.
pub struct PillText {
    /// Visible module texts, in order.
    pub texts: Vec<String>,
    /// Index into the module list of each visible text.
    pub indices: Vec<usize>,
}

fn occurs(s: &Vec<char>, pat: &Vec<char>, i: usize) -> (r: bool)
    requires
        i <= s@.len(),
    ensures
        r == occurs_at(s@, pat@, i as int),
{
    let n = s.len();
    if pat.len() > n - i {
        return false;
    }
    let mut k: usize = 0;
    while k < pat.len()
        invariant
            n == s@.len(),
            i + pat@.len() <= s@.len(),
            k <= pat@.len(),
            forall|j: int| 0 <= j < k ==> s@[i + j] == pat@[j],
        decreases pat@.len() - k,
    {
        if s[i + k] != pat[k] {
            assert(s@.subrange(i as int, i + pat@.len())[k as int] != pat@[k as int]);
            return false;
        }
        k = k + 1;
    }
    assert(s@.subrange(i as int, i + pat@.len()) =~= pat@);
    true
}

/// `s` with each occurrence of `pat` replaced by `rep`.
fn replace_chars(s: &Vec<char>, pat: &Vec<char>, rep: &Vec<char>) -> (r: Vec<char>)
    ensures
        r@ == replace_all(s@, pat@, rep@),
{
    let mut out: Vec<char> = Vec::new();
    let mut i: usize = 0;
    while i < s.len()
        invariant
            i <= s@.len(),
            out@ + replace_from(s@, pat@, rep@, i as int) == replace_all(s@, pat@, rep@),
        decreases s@.len() - i,
    {
        let ghost before = out@;
        if pat.len() > 0 && occurs(s, pat, i) {
            let ghost rest = replace_from(s@, pat@, rep@, i + pat@.len());
            let mut k: usize = 0;
            while k < rep.len()
                invariant
                    k <= rep@.len(),
                    out@ == before + rep@.subrange(0, k as int),
                decreases rep@.len() - k,
            {
                out.push(rep[k]);
                assert(rep@.subrange(0, k + 1) =~= rep@.subrange(0, k as int).push(rep@[k as int]));
                k = k + 1;
            }
            assert(rep@.subrange(0, rep@.len() as int) =~= rep@);
            assert(out@ + rest =~= before + (rep@ + rest));
            i = i + pat.len();
        } else {
            let ghost rest = replace_from(s@, pat@, rep@, i + 1);
            out.push(s[i]);
            assert(out@ + rest =~= before + (seq![s@[i as int]] + rest));
            i = i + 1;
        }
    }
    assert(out@ + Seq::<char>::empty() =~= out@);
    out
}

fn has_occurrence(s: &Vec<char>, pat: &Vec<char>) -> (r: bool)
    ensures
        r == exists|k: int| occurs_at(s@, pat@, k),
{
    let mut i: usize = 0;
    while i < s.len()
        invariant
            i <= s@.len(),
            forall|k: int| 0 <= k < i ==> !occurs_at(s@, pat@, k),
        decreases s@.len() - i,
    {
        if occurs(s, pat, i) {
            return true;
        }
        i = i + 1;
    }
    if occurs(s, pat, s.len()) {
        return true;
    }
    assert forall|k: int| !occurs_at(s@, pat@, k) by {
        if k > s@.len() {
            assert(!(k + pat@.len() <= s@.len()));
        }
    }
    false
}

fn is_blank(s: &Vec<char>) -> (r: bool)
    ensures
        r == blank(s@),
{
    let mut i: usize = 0;
    while i < s.len()
        invariant
            i <= s@.len(),
            forall|k: int| 0 <= k < i ==> white(#[trigger] s@[k]),
        decreases s@.len() - i,
    {
        if !is_white(s[i]) {
            return false;
        }
        i = i + 1;
    }
    true
}

/// The text of one module and whether it shows.
pub fn render_module(m: &BarModule, out: &str) -> (r: (String, bool))
    ensures
        r.0@ == module_text(m.format@, m.icon@, out@),
        r.1 == module_visible(m.format@, m.icon@, out@),
{
    let fmt = chars_of(m.format.as_str());
    let pat = chars_of("{output}");
    let outc = chars_of(out);
    let body = replace_chars(&fmt, &pat, &outc);
    let mut text: Vec<char> = Vec::new();
    if m.icon.as_str().unicode_len() == 0 {
        text = body;
    } else {
        let mut icon = chars_of(m.icon.as_str());
        let mut b = body;
        text.append(&mut icon);
        text.push(' ');
        text.append(&mut b);
    }
    assert(text@ =~= module_text(m.format@, m.icon@, out@));
    let visible = if has_occurrence(&fmt, &pat) {
        !is_blank(&text)
    } else {
        !is_blank(&outc)
    };
    assert(text@.subrange(0, text@.len() as int) =~= text@);
    (string_of_range(&text, 0, text.len()), visible)
}

/// The visible modules of the pill and their texts, given the latest
/// output of each module (`outputs[i]` for module `i`; missing entries
/// read as empty). Modules with nothing to show are skipped, so `indices`
/// maps each shown text back to its module.
pub fn pill_text(cfg: &TopBarConfig, outputs: &Vec<String>) -> (r: PillText)
    ensures
        r.texts@.len() == r.indices@.len(),
        r.texts@.len() == visible_modules(*cfg, strings_view(outputs@)).len(),
        forall|k: int|
            0 <= k < r.texts@.len() ==> r.texts@[k]@ == visible_modules(*cfg, strings_view(outputs@))[k].0
                && r.indices@[k] as int == visible_modules(*cfg, strings_view(outputs@))[k].1,
{
    let ghost ov = strings_view(outputs@);
    let mut texts: Vec<String> = Vec::new();
    let mut indices: Vec<usize> = Vec::new();
    let mut i: usize = 0;
    while i < cfg.modules.len()
        invariant
            ov == strings_view(outputs@),
            i <= cfg.modules@.len(),
            texts@.len() == indices@.len(),
            texts@.len() == visible_upto(cfg.modules@, ov, i as int).len(),
            forall|k: int|
                #![trigger texts@[k]]
                0 <= k < texts@.len() ==> texts@[k]@ == visible_upto(cfg.modules@, ov, i as int)[k].0
                    && indices@[k] as int == visible_upto(cfg.modules@, ov, i as int)[k].1,
        decreases cfg.modules@.len() - i,
    {
        let empty = String::new();
        let out: &String = if i < outputs.len() {
            &outputs[i]
        } else {
            &empty
        };
        assert(out@ == output_of(ov, i as int));
        let (t, visible) = render_module(&cfg.modules[i], out.as_str());
        let ghost prev = visible_upto(cfg.modules@, ov, i as int);
        let ghost old_texts = texts@;
        let ghost old_indices = indices@;
        assert(visible_upto(cfg.modules@, ov, i + 1) == if visible {
            prev.push((t@, i as int))
        } else {
            prev
        });
        if visible {
            texts.push(t);
            indices.push(i);
            assert forall|k: int| 0 <= k < texts@.len() implies texts@[k]@ == visible_upto(
                cfg.modules@,
                ov,
                i + 1,
            )[k].0 && indices@[k] as int == visible_upto(cfg.modules@, ov, i + 1)[k].1 by {
                if k < old_texts.len() {
                    assert(texts@[k] == old_texts[k]);
                    assert(indices@[k] == old_indices[k]);
                }
            }
        } else {
            assert forall|k: int| 0 <= k < texts@.len() implies texts@[k]@ == visible_upto(
                cfg.modules@,
                ov,
                i + 1,
            )[k].0 && indices@[k] as int == visible_upto(cfg.modules@, ov, i + 1)[k].1 by {
                assert(texts@[k]@ == prev[k].0);
            }
        }
        i = i + 1;
    }
    assert(visible_modules(*cfg, ov) == visible_upto(cfg.modules@, ov, i as int));
    PillText { texts, indices }
}

/// Shown modules keep the order of the module list, each at most once.
pub proof fn lemma_visible_indices_increase(mods: Seq<BarModule>, outputs: Seq<Seq<char>>, n: int)
    requires
        0 <= n <= mods.len(),
    ensures
        forall|a: int, b: int|
            0 <= a < b < visible_upto(mods, outputs, n).len() ==> #[trigger] visible_upto(
                mods,
                outputs,
                n,
            )[a].1 < #[trigger] visible_upto(mods, outputs, n)[b].1,
        forall|a: int|
            0 <= a < visible_upto(mods, outputs, n).len() ==> 0 <= #[trigger] visible_upto(
                mods,
                outputs,
                n,
            )[a].1 < n,
    decreases n,
{
    if n > 0 {
        lemma_visible_indices_increase(mods, outputs, n - 1);
        let prev = visible_upto(mods, outputs, n - 1);
        let cur = visible_upto(mods, outputs, n);
        assert forall|a: int| 0 <= a < cur.len() implies 0 <= #[trigger] cur[a].1 < n by {
            if a < prev.len() {
                assert(cur[a] == prev[a]);
            }
        }
        assert forall|a: int, b: int| 0 <= a < b < cur.len() implies #[trigger] cur[a].1
            < #[trigger] cur[b].1 by {
            assert(cur[a] == prev[a]);
            if b < prev.len() {
                assert(cur[b] == prev[b]);
            } else {
                assert(0 <= prev[a].1 < n - 1);
            }
        }
    }
}


// ---------------------------------------------------------------------
// Pointer input over a module
// ---------------------------------------------------------------------

/// Pointer input over a pill module.
#[derive(Clone, Copy, Debug, PartialEq, Eq, Structural)]
pub enum PillInput {
    Click,
    RightClick,
    ScrollUp,
    ScrollDown,
}

/// The shell command a module runs for an input, when it has one (an empty
/// handler is none).
pub fn pill_handler(m: &BarModule, input: PillInput) -> (r: Option<String>)
    ensures
        ({
            let h = match input {
                PillInput::Click => m.on_click@,
                PillInput::RightClick => m.on_click_right@,
                PillInput::ScrollUp => m.on_scroll_up@,
                PillInput::ScrollDown => m.on_scroll_down@,
            };
            &&& h.len() == 0 ==> r is None
            &&& h.len() > 0 ==> (r matches Some(c) && c@ == h)
        }),
{
    let h = match input {
        PillInput::Click => &m.on_click,
        PillInput::RightClick => &m.on_click_right,
        PillInput::ScrollUp => &m.on_scroll_up,
        PillInput::ScrollDown => &m.on_scroll_down,
    };
    if h.as_str().unicode_len() == 0 {
        None
    } else {
        Some(h.clone())
    }
}

// ---------------------------------------------------------------------
// Refresh scheduling
// ---------------------------------------------------------------------

/// A polled module runs its command again once its interval (at least one
/// second, so an interval of 0 cannot spin) has passed, or as soon as one
/// of its watched files changed.
pub fn interval_due(interval_secs: u64, elapsed_secs: u64, watch_changed: bool) -> (due: bool)
    ensures
        due == (elapsed_secs >= (if interval_secs < 1 {
            1
        } else {
            interval_secs
        }) || watch_changed),
{
    let min_interval = if interval_secs < 1 {
        1
    } else {
        interval_secs
    };
    elapsed_secs >= min_interval || watch_changed
}

/// Restart bookkeeping of a module's stream command: how many times in a
/// row it failed (exited or could not start), and from when (in
/// milliseconds on the caller's clock) it may be started again.
#[derive(Clone, Copy, Debug, PartialEq, Eq)]
pub struct StreamRetry {
    pub failures: u32,
    pub retry_at: Option<u64>,
}

impl StreamRetry {
    /// No failure yet: the stream may start at once.
    pub fn new() -> (r: StreamRetry)
        ensures
            r.failures == 0,
            r.retry_at is None,
    {
        StreamRetry { failures: 0, retry_at: None }
    }

    /// The stream must not be started yet at `now_ms`.
    pub fn waiting(&self, now_ms: u64) -> (r: bool)
        ensures
            r == (self.retry_at matches Some(t) && now_ms < t),
    {
        match self.retry_at {
            Some(t) => now_ms < t,
            None => false,
        }
    }

    /// The stream exited, or could not be started, at `now_ms`: count the
    /// failure and wait out the back-off before the next start.
    pub fn failed(&mut self, now_ms: u64)
        requires
            now_ms <= u64::MAX - 30000,
        ensures
            final(self).failures == if old(self).failures == u32::MAX {
                u32::MAX
            } else {
                (old(self).failures + 1) as u32
            },
            final(self).retry_at == Some((now_ms + backoff_ms(final(self).failures)) as u64),
    {
        self.failures = self.failures.saturating_add(1);
        let wait = crate::command::stream_backoff(self.failures);
        proof {
            crate::command::lemma_backoff_monotone(self.failures, self.failures);
        }
        self.retry_at = Some(now_ms + wait);
    }

    /// The stream started: forget past failures.
    pub fn started(&mut self)
        ensures
            final(self).failures == 0,
            final(self).retry_at is None,
    {
        self.failures = 0;
        self.retry_at = None;
    }
}

} // verus!
