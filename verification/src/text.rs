//! Character classes and small sequence-of-characters utilities shared by
//! the parsers of this crate.
use vstd::prelude::*;
use vstd::string::StringExecFns;

verus! {

broadcast use vstd::string::group_string_axioms;

/// `'0'..='9'`.
pub open spec fn digit(c: char) -> bool {
    '0' <= c && c <= '9'
}

/// ASCII letters.
pub open spec fn alpha(c: char) -> bool {
    ('a' <= c && c <= 'z') || ('A' <= c && c <= 'Z')
}

/// First character of a CSS name: a letter, `_` or `-`.
pub open spec fn name_start(c: char) -> bool {
    alpha(c) || c == '_' || c == '-'
}

/// Any later character of a CSS name: a letter, a digit, `_` or `-`.
pub open spec fn name_char(c: char) -> bool {
    alpha(c) || digit(c) || c == '_' || c == '-'
}

pub fn is_digit(c: char) -> (r: bool)
    ensures
        r == digit(c),
{
    '0' <= c && c <= '9'
}

pub fn is_name_start(c: char) -> (r: bool)
    ensures
        r == name_start(c),
{
    ('a' <= c && c <= 'z') || ('A' <= c && c <= 'Z') || c == '_' || c == '-'
}

pub fn is_name_char(c: char) -> (r: bool)
    ensures
        r == name_char(c),
{
    ('a' <= c && c <= 'z') || ('A' <= c && c <= 'Z') || ('0' <= c && c <= '9') || c == '_'
        || c == '-'
}

/// The characters of `s`, in order.
pub fn chars_of(s: &str) -> (v: Vec<char>)
    ensures
        v@ == s@,
{
    let mut v: Vec<char> = Vec::new();
    for c in it: s.chars()
        invariant
            v@ == it.seq().take(it.index() as int),
    {
        v.push(c);
    }
    v
}


/// `true` for the characters of Unicode's `White_Space` property, the set
/// that `char::is_whitespace` and `str::trim` use.
pub open spec fn white(c: char) -> bool {
    ('\u{9}' <= c && c <= '\u{d}') || c == ' ' || c == '\u{85}' || c == '\u{a0}' || c == '\u{1680}'
        || ('\u{2000}' <= c && c <= '\u{200a}') || c == '\u{2028}' || c == '\u{2029}' || c
        == '\u{202f}' || c == '\u{205f}' || c == '\u{3000}'
}

pub fn is_white(c: char) -> (r: bool)
    ensures
        r == white(c),
{
    ('\u{9}' <= c && c <= '\u{d}') || c == ' ' || c == '\u{85}' || c == '\u{a0}' || c == '\u{1680}'
        || ('\u{2000}' <= c && c <= '\u{200a}') || c == '\u{2028}' || c == '\u{2029}' || c
        == '\u{202f}' || c == '\u{205f}' || c == '\u{3000}'
}

/// A character's code with ASCII capitals folded to lower case.
pub open spec fn fold_code(c: char) -> u32 {
    if 'A' <= c && c <= 'Z' {
        (c as u32 + 32) as u32
    } else {
        c as u32
    }
}

/// Equality up to ASCII case, as `str::eq_ignore_ascii_case` compares.
pub open spec fn eq_fold(a: Seq<char>, b: Seq<char>) -> bool {
    a.len() == b.len() && forall|i: int| 0 <= i < a.len() ==> fold_code(a[i]) == fold_code(b[i])
}

fn fold(c: char) -> (r: u32)
    ensures
        r == fold_code(c),
{
    if 'A' <= c && c <= 'Z' {
        c as u32 + 32
    } else {
        c as u32
    }
}

/// `a == b`, compared character by character.
pub fn str_eq(a: &str, b: &str) -> (r: bool)
    ensures
        r == (a@ == b@),
{
    let n = a.unicode_len();
    if b.unicode_len() != n {
        return false;
    }
    let mut i: usize = 0;
    while i < n
        invariant
            n == a@.len(),
            n == b@.len(),
            i <= n,
            forall|k: int| 0 <= k < i ==> a@[k] == b@[k],
        decreases n - i,
    {
        if a.get_char(i) != b.get_char(i) {
            return false;
        }
        i = i + 1;
    }
    assert(a@ =~= b@);
    true
}

/// `a.eq_ignore_ascii_case(b)`.
pub fn str_eq_fold(a: &str, b: &str) -> (r: bool)
    ensures
        r == eq_fold(a@, b@),
{
    let n = a.unicode_len();
    if b.unicode_len() != n {
        return false;
    }
    let mut i: usize = 0;
    while i < n
        invariant
            n == a@.len(),
            n == b@.len(),
            i <= n,
            forall|k: int| 0 <= k < i ==> fold_code(a@[k]) == fold_code(b@[k]),
        decreases n - i,
    {
        if fold(a.get_char(i)) != fold(b.get_char(i)) {
            return false;
        }
        i = i + 1;
    }
    true
}

/// The string made of `v[from..to]` (std's `FromIterator<&char> for String`).
#[verifier::external_body]
pub(crate) fn string_of_range(v: &Vec<char>, from: usize, to: usize) -> (s: String)
    requires
        from <= to <= v@.len(),
    ensures
        s@ == v@.subrange(from as int, to as int),
{
    String::from_iter(&v[from..to])
}


/// The text of an optional string.
pub open spec fn opt_view(o: Option<String>) -> Option<Seq<char>> {
    match o {
        Some(s) => Some(s@),
        None => None,
    }
}

/// The texts of a list of strings.
pub open spec fn strings_view(v: Seq<String>) -> Seq<Seq<char>> {
    v.map_values(|s: String| s@)
}

/// `a` followed by `b`.
pub fn concat(a: &str, b: &str) -> (r: String)
    ensures
        r@ == a@ + b@,
{
    let mut out = a.to_string();
    out.append(b);
    out
}

/// Index of the first `true`, from `i` on.
pub open spec fn first_true_from(b: Seq<bool>, i: int) -> Option<int>
    decreases b.len() - i,
{
    if i < 0 || i >= b.len() {
        None
    } else if b[i] {
        Some(i)
    } else {
        first_true_from(b, i + 1)
    }
}

/// Index of the first `true`.
pub open spec fn first_true(b: Seq<bool>) -> Option<int> {
    first_true_from(b, 0)
}

/// The first `true` is a `true`, inside the sequence, with none before it.
pub proof fn lemma_first_true_from(b: Seq<bool>, i: int)
    requires
        0 <= i,
    ensures
        match first_true_from(b, i) {
            Some(k) => i <= k < b.len() && b[k] && forall|j: int| i <= j < k ==> !b[j],
            None => forall|j: int| i <= j < b.len() ==> !b[j],
        },
    decreases b.len() - i,
{
    if i < b.len() && !b[i] {
        lemma_first_true_from(b, i + 1);
    }
}

/// Index of the first `true` in `b`.
pub fn find_first(b: &Vec<bool>) -> (r: Option<usize>)
    ensures
        match r {
            Some(i) => first_true(b@) == Some(i as int) && i < b@.len() && b@[i as int],
            None => first_true(b@) is None,
        },
{
    let mut i: usize = 0;
    while i < b.len()
        invariant
            i <= b@.len(),
            first_true_from(b@, i as int) == first_true(b@),
        decreases b@.len() - i,
    {
        if b[i] {
            return Some(i);
        }
        i = i + 1;
    }
    None
}

/// The words joined with single spaces.
pub open spec fn join_words(w: Seq<Seq<char>>) -> Seq<char>
    decreases w.len(),
{
    if w.len() == 0 {
        Seq::empty()
    } else if w.len() == 1 {
        w[0]
    } else {
        join_words(w.drop_last()) + seq![' '] + w.last()
    }
}

/// Joining one more word adds a space and the word (only the word when it
/// is the first).
pub proof fn lemma_join_push(w: Seq<Seq<char>>, x: Seq<char>)
    ensures
        join_words(w.push(x)) == if w.len() == 0 {
            x
        } else {
            join_words(w) + seq![' '] + x
        },
{
    assert(w.push(x).drop_last() =~= w);
}


/// The strings joined with single spaces (`join(" ")`).
pub fn join_space(v: &Vec<String>) -> (r: String)
    ensures
        r@ == join_words(strings_view(v@)),
{
    let ghost w = strings_view(v@);
    let mut out: Vec<char> = Vec::new();
    let mut i: usize = 0;
    while i < v.len()
        invariant
            w == strings_view(v@),
            i <= v@.len(),
            out@ == join_words(w.subrange(0, i as int)),
        decreases v@.len() - i,
    {
        let mut c = chars_of(v[i].as_str());
        proof {
            lemma_join_push(w.subrange(0, i as int), v@[i as int]@);
            assert(w.subrange(0, i + 1) =~= w.subrange(0, i as int).push(v@[i as int]@));
        }
        if i > 0 {
            out.push(' ');
        }
        out.append(&mut c);
        proof {
            if i > 0 {
                assert(out@ =~= join_words(w.subrange(0, i as int)) + seq![' '] + v@[i as int]@);
            } else {
                assert(out@ =~= v@[i as int]@);
            }
        }
        i = i + 1;
    }
    assert(w.subrange(0, v@.len() as int) =~= w);
    assert(out@.subrange(0, out@.len() as int) =~= out@);
    string_of_range(&out, 0, out.len())
}

} // verus!
