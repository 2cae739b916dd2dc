//! Tokenizer for the CSS subset that styles the menu: selectors, blocks,
//! declarations and the value forms the theme reads.
//!
//! Numbers are kept as the exact text they were written with (`"-.25"`,
//! `"1e3"`); turning that decimal text into a machine number is left to the
//! renderer.
use vstd::prelude::*;
use crate::text::{digit, name_char, name_start, is_digit, is_name_char, is_name_start, str_eq, string_of_range, chars_of};

verus! {

broadcast use vstd::string::group_string_axioms;

/// Unit of a dimension token. Unknown units read as pixels.
#[derive(Clone, Copy, Debug, PartialEq, Eq, Structural)]
pub enum Unit {
    Px,
    Pt,
    Em,
}

/// A CSS token.
#[derive(Clone, Debug, PartialEq)]
pub enum Tok {
    Lbrace,
    Rbrace,
    Lparen,
    Rparen,
    Colon,
    Semicolon,
    Comma,
    Dot,
    Ident(String),
    Hash(String),
    /// A bare number, by its decimal text.
    Number(String),
    /// A number followed by a unit name, by its decimal text.
    Dimension(String, Unit),
    /// A number followed by `%`, by its decimal text.
    Percentage(String),
    /// A quoted string, escapes resolved.
    Str(String),
    /// `name(`: the parenthesis is part of the token.
    Function(String),
}

/// The mathematical value of a token: its kind and its text.
pub enum TokV {
    Lbrace,
    Rbrace,
    Lparen,
    Rparen,
    Colon,
    Semicolon,
    Comma,
    Dot,
    Ident(Seq<char>),
    Hash(Seq<char>),
    Number(Seq<char>),
    Dimension(Seq<char>, Unit),
    Percentage(Seq<char>),
    Str(Seq<char>),
    Function(Seq<char>),
}

impl View for Tok {
    type V = TokV;

    open spec fn view(&self) -> TokV {
        match self {
            Tok::Lbrace => TokV::Lbrace,
            Tok::Rbrace => TokV::Rbrace,
            Tok::Lparen => TokV::Lparen,
            Tok::Rparen => TokV::Rparen,
            Tok::Colon => TokV::Colon,
            Tok::Semicolon => TokV::Semicolon,
            Tok::Comma => TokV::Comma,
            Tok::Dot => TokV::Dot,
            Tok::Ident(s) => TokV::Ident(s@),
            Tok::Hash(s) => TokV::Hash(s@),
            Tok::Number(s) => TokV::Number(s@),
            Tok::Dimension(s, u) => TokV::Dimension(s@, *u),
            Tok::Percentage(s) => TokV::Percentage(s@),
            Tok::Str(s) => TokV::Str(s@),
            Tok::Function(s) => TokV::Function(s@),
        }
    }
}

/// The views of a sequence of tokens.
pub open spec fn toks_view(v: Seq<Tok>) -> Seq<TokV> {
    v.map_values(|t: Tok| t@)
}

/// A copy of a token with the same view.
pub fn copy_tok(t: &Tok) -> (r: Tok)
    ensures
        r@ == t@,
{
    match t {
        Tok::Lbrace => Tok::Lbrace,
        Tok::Rbrace => Tok::Rbrace,
        Tok::Lparen => Tok::Lparen,
        Tok::Rparen => Tok::Rparen,
        Tok::Colon => Tok::Colon,
        Tok::Semicolon => Tok::Semicolon,
        Tok::Comma => Tok::Comma,
        Tok::Dot => Tok::Dot,
        Tok::Ident(s) => Tok::Ident(s.clone()),
        Tok::Hash(s) => Tok::Hash(s.clone()),
        Tok::Number(s) => Tok::Number(s.clone()),
        Tok::Dimension(s, u) => Tok::Dimension(s.clone(), *u),
        Tok::Percentage(s) => Tok::Percentage(s.clone()),
        Tok::Str(s) => Tok::Str(s.clone()),
        Tok::Function(s) => Tok::Function(s.clone()),
    }
}

// ---------------------------------------------------------------------
// The lexical grammar, over the characters of the input
// ---------------------------------------------------------------------

/// End of the run of digits starting at `i`.
pub open spec fn digits_end(s: Seq<char>, i: int) -> int
    decreases s.len() - i,
{
    if 0 <= i < s.len() && digit(s[i]) {
        digits_end(s, i + 1)
    } else {
        i
    }
}

/// End of the run of name characters starting at `i`.
pub open spec fn name_end(s: Seq<char>, i: int) -> int
    decreases s.len() - i,
{
    if 0 <= i < s.len() && name_char(s[i]) {
        name_end(s, i + 1)
    } else {
        i
    }
}

/// Position of the `*/` that closes a comment whose text starts at `k`
/// (or the last position when there is none).
pub open spec fn comment_close(s: Seq<char>, k: int) -> int
    decreases s.len() - k,
{
    if 0 <= k && k + 1 < s.len() && !(s[k] == '*' && s[k + 1] == '/') {
        comment_close(s, k + 1)
    } else {
        k
    }
}

/// A number starts at `i`: a digit, a sign before a digit or before `.`
/// and a digit, or `.` before a digit.
pub open spec fn starts_number(s: Seq<char>, i: int) -> bool {
    ||| digit(s[i])
    ||| (s[i] == '-' && i + 1 < s.len() && (digit(s[i + 1]) || (s[i + 1] == '.' && i + 2 < s.len()
        && digit(s[i + 2]))))
    ||| (s[i] == '.' && i + 1 < s.len() && digit(s[i + 1]))
}

/// End of the number text that starts at `i`: optional sign, digits, an
/// optional fraction, and an exponent only when digits follow it.
pub open spec fn number_end(s: Seq<char>, i: int) -> int {
    let a = if s[i] == '-' {
        i + 1
    } else {
        i
    };
    let b = digits_end(s, a);
    let c = if b < s.len() && s[b] == '.' {
        digits_end(s, b + 1)
    } else {
        b
    };
    if c < s.len() && (s[c] == 'e' || s[c] == 'E') {
        let j = if c + 1 < s.len() && (s[c + 1] == '+' || s[c + 1] == '-') {
            c + 2
        } else {
            c + 1
        };
        if j < s.len() && digit(s[j]) {
            digits_end(s, j)
        } else {
            c
        }
    } else {
        c
    }
}

/// The unit that a unit name stands for.
pub open spec fn unit_of(u: Seq<char>) -> Unit {
    if u == "pt"@ {
        Unit::Pt
    } else if u == "em"@ || u == "rem"@ {
        Unit::Em
    } else {
        Unit::Px
    }
}

/// Contents and end position of a quoted string whose body starts at `i`,
/// closed by `q`; a backslash takes the next character literally.
pub open spec fn quoted(s: Seq<char>, i: int, q: char) -> (Seq<char>, int)
    decreases s.len() - i,
{
    if i < 0 || i >= s.len() {
        (Seq::empty(), i)
    } else if s[i] == '\\' && i + 1 < s.len() {
        let r = quoted(s, i + 2, q);
        (seq![s[i + 1]] + r.0, r.1)
    } else if s[i] == q {
        (Seq::empty(), i + 1)
    } else {
        let r = quoted(s, i + 1, q);
        (seq![s[i]] + r.0, r.1)
    }
}

/// The token of a number that starts at `i`, and where the next one starts.
pub open spec fn number_token(s: Seq<char>, i: int) -> (Option<TokV>, int) {
    let d = number_end(s, i);
    let text = s.subrange(i, d);
    let j = name_end(s, d);
    if j > d {
        (Some(TokV::Dimension(text, unit_of(s.subrange(d, j)))), j)
    } else if d < s.len() && s[d] == '%' {
        (Some(TokV::Percentage(text)), d + 1)
    } else {
        (Some(TokV::Number(text)), d)
    }
}

/// One step of the tokenizer at position `i`: the token read there, if
/// any (comments and unknown characters give none), and where the next
/// step starts.
pub open spec fn lex_step(s: Seq<char>, i: int) -> (Option<TokV>, int) {
    let c = s[i];
    if c == '{' {
        (Some(TokV::Lbrace), i + 1)
    } else if c == '}' {
        (Some(TokV::Rbrace), i + 1)
    } else if c == '(' {
        (Some(TokV::Lparen), i + 1)
    } else if c == ')' {
        (Some(TokV::Rparen), i + 1)
    } else if c == ':' {
        (Some(TokV::Colon), i + 1)
    } else if c == ';' {
        (Some(TokV::Semicolon), i + 1)
    } else if c == ',' {
        (Some(TokV::Comma), i + 1)
    } else if c == '.' && !(i + 1 < s.len() && digit(s[i + 1])) {
        (Some(TokV::Dot), i + 1)
    } else if c == '/' && i + 1 < s.len() && s[i + 1] == '*' {
        let k = comment_close(s, i + 2);
        (None, if k + 2 < s.len() {
            k + 2
        } else {
            s.len() as int
        })
    } else if c == '#' {
        let j = name_end(s, i + 1);
        (Some(TokV::Hash(s.subrange(i + 1, j))), j)
    } else if c == '"' || c == '\'' {
        let r = quoted(s, i + 1, c);
        (Some(TokV::Str(r.0)), r.1)
    } else if starts_number(s, i) {
        number_token(s, i)
    } else if name_start(c) {
        let j = name_end(s, i + 1);
        if j < s.len() && s[j] == '(' {
            (Some(TokV::Function(s.subrange(i, j))), j + 1)
        } else {
            (Some(TokV::Ident(s.subrange(i, j))), j)
        }
    } else {
        (None, i + 1)
    }
}

proof fn lemma_digits_end(s: Seq<char>, i: int)
    requires
        0 <= i <= s.len(),
    ensures
        i <= digits_end(s, i) <= s.len(),
        i < s.len() && digit(s[i]) ==> i < digits_end(s, i),
        forall|k: int| i <= k < digits_end(s, i) ==> digit(#[trigger] s[k]),
    decreases s.len() - i,
{
    if i < s.len() && digit(s[i]) {
        lemma_digits_end(s, i + 1);
    }
}

proof fn lemma_name_end(s: Seq<char>, i: int)
    requires
        0 <= i <= s.len(),
    ensures
        i <= name_end(s, i) <= s.len(),
        forall|k: int| i <= k < name_end(s, i) ==> name_char(#[trigger] s[k]),
    decreases s.len() - i,
{
    if i < s.len() && name_char(s[i]) {
        lemma_name_end(s, i + 1);
    }
}

proof fn lemma_comment_close(s: Seq<char>, k: int)
    requires
        0 <= k,
    ensures
        k <= comment_close(s, k),
        k + 1 < s.len() ==> comment_close(s, k) + 1 < s.len() || comment_close(s, k) + 1
            == s.len(),
    decreases s.len() - k,
{
    if k + 1 < s.len() && !(s[k] == '*' && s[k + 1] == '/') {
        lemma_comment_close(s, k + 1);
    }
}

proof fn lemma_quoted(s: Seq<char>, i: int, q: char)
    requires
        0 <= i <= s.len(),
    ensures
        i <= quoted(s, i, q).1 <= s.len(),
    decreases s.len() - i,
{
    if i < s.len() {
        if s[i] == '\\' && i + 1 < s.len() {
            lemma_quoted(s, i + 2, q);
        } else if s[i] != q {
            lemma_quoted(s, i + 1, q);
        }
    }
}

proof fn lemma_number_end(s: Seq<char>, i: int)
    requires
        0 <= i < s.len(),
        starts_number(s, i),
    ensures
        i < number_end(s, i) <= s.len(),
{
    let a = if s[i] == '-' {
        i + 1
    } else {
        i
    };
    lemma_digits_end(s, a);
    let b = digits_end(s, a);
    if b < s.len() && s[b] == '.' {
        lemma_digits_end(s, b + 1);
    }
    let c = if b < s.len() && s[b] == '.' {
        digits_end(s, b + 1)
    } else {
        b
    };
    if c < s.len() && (s[c] == 'e' || s[c] == 'E') {
        let j = if c + 1 < s.len() && (s[c + 1] == '+' || s[c + 1] == '-') {
            c + 2
        } else {
            c + 1
        };
        if j < s.len() && digit(s[j]) {
            lemma_digits_end(s, j);
        }
    }
}

/// Every step consumes at least one character and stays inside the input.
pub proof fn lemma_lex_step_advances(s: Seq<char>, i: int)
    requires
        0 <= i < s.len(),
    ensures
        i < lex_step(s, i).1 <= s.len(),
{
    let c = s[i];
    if c == '/' && i + 1 < s.len() && s[i + 1] == '*' {
        lemma_comment_close(s, i + 2);
    } else if c == '#' {
        lemma_name_end(s, i + 1);
    } else if c == '"' || c == '\'' {
        lemma_quoted(s, i + 1, c);
    } else if starts_number(s, i) {
        lemma_number_end(s, i);
        lemma_name_end(s, number_end(s, i));
    } else if name_start(c) {
        lemma_name_end(s, i + 1);
    }
}

/// The tokens of `s` from position `i` on.
pub open spec fn tokens_from(s: Seq<char>, i: int) -> Seq<TokV>
    decreases s.len() - i,
{
    if i < 0 || i >= s.len() {
        Seq::empty()
    } else {
        let r = lex_step(s, i);
        proof {
            lemma_lex_step_advances(s, i);
        }
        match r.0 {
            Some(t) => seq![t] + tokens_from(s, r.1),
            None => tokens_from(s, r.1),
        }
    }
}

/// The tokens of a CSS text.
pub open spec fn tokens(s: Seq<char>) -> Seq<TokV> {
    tokens_from(s, 0)
}


// ---------------------------------------------------------------------
// The tokenizer
// ---------------------------------------------------------------------

pub open spec fn opt_tok_view(t: Option<Tok>) -> Option<TokV> {
    match t {
        Some(t) => Some(t@),
        None => None,
    }
}

fn scan_digits(cs: &Vec<char>, i: usize) -> (r: usize)
    requires
        i <= cs@.len(),
    ensures
        r == digits_end(cs@, i as int),
        i <= r <= cs@.len(),
{
    let mut j = i;
    while j < cs.len() && is_digit(cs[j])
        invariant
            i <= j <= cs@.len(),
            digits_end(cs@, j as int) == digits_end(cs@, i as int),
        decreases cs@.len() - j,
    {
        j = j + 1;
    }
    j
}

fn scan_name(cs: &Vec<char>, i: usize) -> (r: usize)
    requires
        i <= cs@.len(),
    ensures
        r == name_end(cs@, i as int),
        i <= r <= cs@.len(),
{
    let mut j = i;
    while j < cs.len() && is_name_char(cs[j])
        invariant
            i <= j <= cs@.len(),
            name_end(cs@, j as int) == name_end(cs@, i as int),
        decreases cs@.len() - j,
    {
        j = j + 1;
    }
    j
}

fn scan_comment(cs: &Vec<char>, k: usize) -> (r: usize)
    requires
        k <= cs@.len(),
    ensures
        r == comment_close(cs@, k as int),
        k <= r <= cs@.len(),
{
    let mut j = k;
    while cs.len() > 0 && j < cs.len() - 1 && !(cs[j] == '*' && cs[j + 1] == '/')
        invariant
            k <= j <= cs@.len(),
            comment_close(cs@, j as int) == comment_close(cs@, k as int),
        decreases cs@.len() - j,
    {
        j = j + 1;
    }
    j
}

fn scan_number(cs: &Vec<char>, i: usize) -> (r: usize)
    requires
        i < cs@.len(),
        starts_number(cs@, i as int),
    ensures
        r == number_end(cs@, i as int),
        i < r <= cs@.len(),
{
    proof {
        lemma_number_end(cs@, i as int);
    }
    let len = cs.len();
    assert(i < len);
    let a = if cs[i] == '-' {
        i + 1
    } else {
        i
    };
    let b = scan_digits(cs, a);
    let c = if b < cs.len() && cs[b] == '.' {
        scan_digits(cs, b + 1)
    } else {
        b
    };
    if c < cs.len() && (cs[c] == 'e' || cs[c] == 'E') {
        let j = if c + 1 < cs.len() && (cs[c + 1] == '+' || cs[c + 1] == '-') {
            c + 2
        } else {
            c + 1
        };
        if j < cs.len() && is_digit(cs[j]) {
            scan_digits(cs, j)
        } else {
            c
        }
    } else {
        c
    }
}

fn scan_quoted(cs: &Vec<char>, i: usize, q: char) -> (r: (String, usize))
    requires
        i <= cs@.len(),
    ensures
        r.0@ == quoted(cs@, i as int, q).0,
        r.1 == quoted(cs@, i as int, q).1,
        i <= r.1 <= cs@.len(),
{
    proof {
        lemma_quoted(cs@, i as int, q);
    }
    let mut val: Vec<char> = Vec::new();
    let mut j = i;
    while j < cs.len()
        invariant
            i <= j <= cs@.len(),
            val@ + quoted(cs@, j as int, q).0 == quoted(cs@, i as int, q).0,
            quoted(cs@, j as int, q).1 == quoted(cs@, i as int, q).1,
        decreases cs@.len() - j,
    {
        let c = cs[j];
        if c == '\\' && j + 1 < cs.len() {
            let ghost before = val@;
            let ghost rest = quoted(cs@, j + 2, q).0;
            val.push(cs[j + 1]);
            assert(val@ + rest =~= before + (seq![cs@[j + 1]] + rest));
            j = j + 2;
        } else if c == q {
            assert(val@ + Seq::<char>::empty() =~= val@);
            assert(val@.subrange(0, val@.len() as int) =~= val@);
            let s = string_of_range(&val, 0, val.len());
            return (s, j + 1);
        } else {
            let ghost before = val@;
            let ghost rest = quoted(cs@, j + 1, q).0;
            val.push(c);
            assert(val@ + rest =~= before + (seq![c] + rest));
            j = j + 1;
        }
    }
    assert(val@ + Seq::<char>::empty() =~= val@);
    assert(val@.subrange(0, val@.len() as int) =~= val@);
    (string_of_range(&val, 0, val.len()), j)
}


fn unit_at(cs: &Vec<char>, from: usize, to: usize) -> (u: Unit)
    requires
        from <= to <= cs@.len(),
    ensures
        u == unit_of(cs@.subrange(from as int, to as int)),
{
    let name = string_of_range(cs, from, to);
    if str_eq(name.as_str(), "pt") {
        Unit::Pt
    } else if str_eq(name.as_str(), "em") || str_eq(name.as_str(), "rem") {
        Unit::Em
    } else {
        Unit::Px
    }
}

/// One tokenizer step at `i`, as `lex_step` states it.
fn lex_at(cs: &Vec<char>, i: usize) -> (r: (Option<Tok>, usize))
    requires
        i < cs@.len(),
    ensures
        opt_tok_view(r.0) == lex_step(cs@, i as int).0,
        r.1 == lex_step(cs@, i as int).1,
{
    proof {
        lemma_lex_step_advances(cs@, i as int);
    }
    let len = cs.len();
    let c = cs[i];
    if c == '{' {
        (Some(Tok::Lbrace), i + 1)
    } else if c == '}' {
        (Some(Tok::Rbrace), i + 1)
    } else if c == '(' {
        (Some(Tok::Lparen), i + 1)
    } else if c == ')' {
        (Some(Tok::Rparen), i + 1)
    } else if c == ':' {
        (Some(Tok::Colon), i + 1)
    } else if c == ';' {
        (Some(Tok::Semicolon), i + 1)
    } else if c == ',' {
        (Some(Tok::Comma), i + 1)
    } else if c == '.' && !(i + 1 < len && is_digit(cs[i + 1])) {
        (Some(Tok::Dot), i + 1)
    } else if c == '/' && i + 1 < len && cs[i + 1] == '*' {
        let k = scan_comment(cs, i + 2);
        (None, if k < len - 2 {
            k + 2
        } else {
            len
        })
    } else if c == '#' {
        let j = scan_name(cs, i + 1);
        (Some(Tok::Hash(string_of_range(cs, i + 1, j))), j)
    } else if c == '"' || c == '\'' {
        let (v, j) = scan_quoted(cs, i + 1, c);
        (Some(Tok::Str(v)), j)
    } else if is_digit(c) || (c == '-' && i + 1 < len && (is_digit(cs[i + 1]) || (cs[i + 1] == '.'
        && i + 2 < len && is_digit(cs[i + 2])))) || (c == '.' && i + 1 < len && is_digit(
        cs[i + 1],
    )) {
        let d = scan_number(cs, i);
        let text = string_of_range(cs, i, d);
        let j = scan_name(cs, d);
        if j > d {
            (Some(Tok::Dimension(text, unit_at(cs, d, j))), j)
        } else if d < len && cs[d] == '%' {
            (Some(Tok::Percentage(text)), d + 1)
        } else {
            (Some(Tok::Number(text)), d)
        }
    } else if is_name_start(c) {
        let j = scan_name(cs, i + 1);
        if j < len && cs[j] == '(' {
            (Some(Tok::Function(string_of_range(cs, i, j))), j + 1)
        } else {
            (Some(Tok::Ident(string_of_range(cs, i, j))), j)
        }
    } else {
        (None, i + 1)
    }
}

/// Split a CSS text into tokens. Comments and characters outside the
/// grammar produce no token.
pub fn tokenize(css: &str) -> (toks: Vec<Tok>)
    ensures
        toks_view(toks@) == tokens(css@),
{
    let cs = chars_of(css);
    let mut out: Vec<Tok> = Vec::new();
    let mut i: usize = 0;
    while i < cs.len()
        invariant
            cs@ == css@,
            i <= cs@.len(),
            toks_view(out@) + tokens_from(cs@, i as int) == tokens(cs@),
        decreases cs@.len() - i,
    {
        let ghost before = toks_view(out@);
        proof {
            lemma_lex_step_advances(cs@, i as int);
        }
        let (t, j) = lex_at(&cs, i);
        match t {
            Some(t) => {
                let ghost tv = t@;
                out.push(t);
                assert(toks_view(out@) =~= before.push(tv));
                assert(before.push(tv) + tokens_from(cs@, j as int) =~= before + (seq![tv]
                    + tokens_from(cs@, j as int)));
            },
            None => {},
        }
        i = j;
    }
    assert(toks_view(out@) + Seq::<TokV>::empty() =~= toks_view(out@));
    out
}


// ---------------------------------------------------------------------
// Rules: selector tokens, then `{ prop: values; ... }`
// ---------------------------------------------------------------------

/// A rule: the tokens before `{` and the declarations of its block, each
/// a property name and the tokens of its value.
pub struct Rule {
    pub selectors: Vec<Tok>,
    pub decls: Vec<(String, Vec<Tok>)>,
}

pub struct RuleV {
    pub selectors: Seq<TokV>,
    pub decls: Seq<(Seq<char>, Seq<TokV>)>,
}

pub open spec fn decls_view(d: Seq<(String, Vec<Tok>)>) -> Seq<(Seq<char>, Seq<TokV>)> {
    d.map_values(|p: (String, Vec<Tok>)| (p.0@, toks_view(p.1@)))
}

impl View for Rule {
    type V = RuleV;

    open spec fn view(&self) -> RuleV {
        RuleV { selectors: toks_view(self.selectors@), decls: decls_view(self.decls@) }
    }
}

pub open spec fn rules_view(v: Seq<Rule>) -> Seq<RuleV> {
    v.map_values(|r: Rule| r@)
}

/// Selector tokens from `i` up to the next `{`, skipping stray `}` and `;`;
/// and the position of that `{` (the end when there is none).
pub open spec fn selector_scan(t: Seq<TokV>, i: int) -> (Seq<TokV>, int)
    decreases t.len() - i,
{
    if i < 0 || i >= t.len() {
        (Seq::empty(), i)
    } else if t[i] is Lbrace {
        (Seq::empty(), i)
    } else if t[i] is Rbrace || t[i] is Semicolon {
        selector_scan(t, i + 1)
    } else {
        let r = selector_scan(t, i + 1);
        (seq![t[i]] + r.0, r.1)
    }
}

/// The declarations of a block from `i` up to its `}` (or the end), given
/// the property being read (`prop`) and the value tokens read so far
/// (`vals`); and the position of that `}`. A property starts at a name
/// followed by `:` while no property is open and no value token is
/// pending; `;` closes the open property.
pub open spec fn decl_scan(t: Seq<TokV>, i: int, prop: Option<Seq<char>>, vals: Seq<TokV>) -> (
    Seq<(Seq<char>, Seq<TokV>)>,
    int,
)
    decreases t.len() - i,
{
    if i < 0 || i >= t.len() || t[i] is Rbrace {
        (
            match prop {
                Some(p) => seq![(p, vals)],
                None => Seq::empty(),
            },
            i,
        )
    } else if t[i] is Semicolon {
        match prop {
            Some(p) => {
                let r = decl_scan(t, i + 1, None, Seq::empty());
                (seq![(p, vals)] + r.0, r.1)
            },
            None => decl_scan(t, i + 1, None, vals),
        }
    } else if t[i] is Ident && prop is None && vals.len() == 0 && i + 1 < t.len() && t[i
        + 1] is Colon {
        decl_scan(t, i + 1, Some(t[i]->Ident_0), vals)
    } else {
        decl_scan(t, i + 1, prop, vals.push(t[i]))
    }
}

pub proof fn lemma_selector_scan(t: Seq<TokV>, i: int)
    requires
        0 <= i <= t.len(),
    ensures
        i <= selector_scan(t, i).1 <= t.len(),
        selector_scan(t, i).1 < t.len() ==> t[selector_scan(t, i).1] is Lbrace,
    decreases t.len() - i,
{
    if i < t.len() && !(t[i] is Lbrace) {
        lemma_selector_scan(t, i + 1);
    }
}

pub proof fn lemma_decl_scan(t: Seq<TokV>, i: int, prop: Option<Seq<char>>, vals: Seq<TokV>)
    requires
        0 <= i <= t.len(),
    ensures
        i <= decl_scan(t, i, prop, vals).1 <= t.len(),
    decreases t.len() - i,
{
    if i < t.len() && !(t[i] is Rbrace) {
        if t[i] is Semicolon {
            if prop is Some {
                lemma_decl_scan(t, i + 1, None, Seq::empty());
            } else {
                lemma_decl_scan(t, i + 1, None, vals);
            }
        } else if t[i] is Ident && prop is None && vals.len() == 0 && i + 1 < t.len() && t[i
            + 1] is Colon {
            lemma_decl_scan(t, i + 1, Some(t[i]->Ident_0), vals);
        } else {
            lemma_decl_scan(t, i + 1, prop, vals.push(t[i]));
        }
    }
}

/// The rules of a token sequence from `i` on. Text after the last `{`-less
/// selector run is dropped, and so is a block with no selector before it.
pub open spec fn rules_from(t: Seq<TokV>, i: int) -> Seq<RuleV>
    decreases t.len() - i,
{
    if i < 0 || i >= t.len() {
        Seq::empty()
    } else {
        let sel = selector_scan(t, i);
        if sel.1 >= t.len() {
            Seq::empty()
        } else {
            let body = decl_scan(t, sel.1 + 1, None, Seq::empty());
            let next = if body.1 < t.len() {
                body.1 + 1
            } else {
                body.1
            };
            proof {
                lemma_selector_scan(t, i);
                lemma_decl_scan(t, sel.1 + 1, None, Seq::empty());
            }
            let rest = rules_from(t, next);
            if sel.0.len() > 0 {
                seq![RuleV { selectors: sel.0, decls: body.0 }] + rest
            } else {
                rest
            }
        }
    }
}

/// The rules of a token sequence.
pub open spec fn rules(t: Seq<TokV>) -> Seq<RuleV> {
    rules_from(t, 0)
}


pub open spec fn opt_string_view(p: Option<String>) -> Option<Seq<char>> {
    match p {
        Some(s) => Some(s@),
        None => None,
    }
}

fn is_lbrace(t: &Tok) -> (r: bool)
    ensures
        r == (t@ is Lbrace),
{
    match t {
        Tok::Lbrace => true,
        _ => false,
    }
}

fn is_rbrace(t: &Tok) -> (r: bool)
    ensures
        r == (t@ is Rbrace),
{
    match t {
        Tok::Rbrace => true,
        _ => false,
    }
}

fn is_colon(t: &Tok) -> (r: bool)
    ensures
        r == (t@ is Colon),
{
    match t {
        Tok::Colon => true,
        _ => false,
    }
}

fn scan_selectors(toks: &Vec<Tok>, i: usize) -> (r: (Vec<Tok>, usize))
    requires
        i <= toks@.len(),
    ensures
        toks_view(r.0@) == selector_scan(toks_view(toks@), i as int).0,
        r.1 == selector_scan(toks_view(toks@), i as int).1,
        i <= r.1 <= toks@.len(),
{
    let ghost t = toks_view(toks@);
    let mut sel: Vec<Tok> = Vec::new();
    let mut j = i;
    while j < toks.len() && !is_lbrace(&toks[j])
        invariant
            t == toks_view(toks@),
            i <= j <= toks@.len(),
            toks_view(sel@) + selector_scan(t, j as int).0 == selector_scan(t, i as int).0,
            selector_scan(t, j as int).1 == selector_scan(t, i as int).1,
        decreases toks@.len() - j,
    {
        assert(t[j as int] == toks@[j as int]@);
        match &toks[j] {
            Tok::Rbrace => {},
            Tok::Semicolon => {},
            other => {
                let ghost before = toks_view(sel@);
                let c = copy_tok(other);
                sel.push(c);
                assert(toks_view(sel@) =~= before.push(t[j as int]));
                assert(before.push(t[j as int]) + selector_scan(t, j + 1).0 =~= before + (seq![
                    t[j as int],
                ] + selector_scan(t, j + 1).0));
            },
        }
        j = j + 1;
    }
    assert(toks_view(sel@) + Seq::<TokV>::empty() =~= toks_view(sel@));
    (sel, j)
}

fn scan_decls(toks: &Vec<Tok>, j0: usize) -> (r: (Vec<(String, Vec<Tok>)>, usize))
    requires
        j0 <= toks@.len(),
    ensures
        decls_view(r.0@) == decl_scan(toks_view(toks@), j0 as int, None, Seq::empty()).0,
        r.1 == decl_scan(toks_view(toks@), j0 as int, None, Seq::empty()).1,
        j0 <= r.1 <= toks@.len(),
{
    let ghost t = toks_view(toks@);
    let ghost goal = decl_scan(t, j0 as int, None, Seq::empty());
    let mut decls: Vec<(String, Vec<Tok>)> = Vec::new();
    let mut prop: Option<String> = None;
    let mut vals: Vec<Tok> = Vec::new();
    let mut k = j0;
    assert(toks_view(vals@) =~= Seq::<TokV>::empty());
    assert(decls_view(decls@) =~= Seq::empty());
    while k < toks.len() && !is_rbrace(&toks[k])
        invariant
            t == toks_view(toks@),
            j0 <= k <= toks@.len(),
            decls_view(decls@) + decl_scan(t, k as int, opt_string_view(prop), toks_view(vals@)).0
                == goal.0,
            decl_scan(t, k as int, opt_string_view(prop), toks_view(vals@)).1 == goal.1,
        decreases toks@.len() - k,
    {
        assert(t[k as int] == toks@[k as int]@);
        let ghost dv = decls_view(decls@);
        match &toks[k] {
            Tok::Semicolon => {
                match prop {
                    Some(p) => {
                        let ghost pv = p@;
                        let ghost vv = toks_view(vals@);
                        let v = vals;
                        decls.push((p, v));
                        vals = Vec::new();
                        prop = None;
                        assert(decls_view(decls@) =~= dv.push((pv, vv)));
                        assert(toks_view(vals@) =~= Seq::<TokV>::empty());
                        let ghost rest = decl_scan(t, k + 1, None, Seq::empty()).0;
                        assert(dv.push((pv, vv)) + rest =~= dv + (seq![(pv, vv)] + rest));
                    },
                    None => {},
                }
                k = k + 1;
            },
            Tok::Ident(name) if prop.is_none() && vals.len() == 0 && k + 1 < toks.len()
                && is_colon(&toks[k + 1]) => {
                assert(t[k + 1] == toks@[k + 1]@);
                prop = Some(name.clone());
                k = k + 1;
            },
            other => {
                let ghost vv = toks_view(vals@);
                let c = copy_tok(other);
                vals.push(c);
                assert(toks_view(vals@) =~= vv.push(t[k as int]));
                k = k + 1;
            },
        }
    }
    let ghost dv = decls_view(decls@);
    match prop {
        Some(p) => {
            let ghost pv = p@;
            let ghost vv = toks_view(vals@);
            decls.push((p, vals));
            assert(decls_view(decls@) =~= dv.push((pv, vv)));
            assert(dv + seq![(pv, vv)] =~= dv.push((pv, vv)));
        },
        None => {
            assert(dv + Seq::empty() =~= dv);
        },
    }
    (decls, k)
}

/// Group tokens into rules.
pub fn parse_rules(toks: &Vec<Tok>) -> (rs: Vec<Rule>)
    ensures
        rules_view(rs@) == rules(toks_view(toks@)),
{
    let ghost t = toks_view(toks@);
    let mut out: Vec<Rule> = Vec::new();
    let mut i: usize = 0;
    assert(rules_view(out@) =~= Seq::empty());
    assert(Seq::<RuleV>::empty() + rules(t) =~= rules(t));
    while i < toks.len()
        invariant
            t == toks_view(toks@),
            i <= toks@.len(),
            rules_view(out@) + rules_from(t, i as int) == rules(t),
        decreases toks@.len() - i,
    {
        let ghost before = rules_view(out@);
        let (sel, j) = scan_selectors(toks, i);
        if j >= toks.len() {
            i = toks.len();
        } else {
            let (decls, k) = scan_decls(toks, j + 1);
            let next = if k < toks.len() {
                k + 1
            } else {
                k
            };
            if sel.len() > 0 {
                let r = Rule { selectors: sel, decls };
                let ghost rv = r@;
                out.push(r);
                assert(rules_view(out@) =~= before.push(rv));
                assert(before.push(rv) + rules_from(t, next as int) =~= before + (seq![rv]
                    + rules_from(t, next as int)));
            }
            i = next;
        }
    }
    assert(rules_view(out@) + Seq::<RuleV>::empty() =~= rules_view(out@));
    out
}

} // verus!
