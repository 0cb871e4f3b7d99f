//! String-normalization primitives: whitespace trimming, Unicode case
//! folding, and the normalized lookup keys built from both.
//!
//! Identity resolution throughout the pipeline is keyed by
//! `normalize_key`: the trimmed, case-folded form of a name.  The case
//! folding itself is the full Unicode lowercase mapping, named
//! `lower_of` and carried out by the one trusted call the library makes
//! into the standard library's text support.

use vstd::prelude::*;
use crate::ext::lowercase;

verus! {

/// Whitespace as recognized by the trimming rules: the Unicode
/// whitespace set, the same one the run-of-text splitters use.
pub open spec fn is_space(c: char) -> bool {
    c == ' ' || c == '\t' || c == '\n' || c == '\u{b}' || c == '\u{c}' || c == '\r' || c
        == '\u{85}' || c == '\u{a0}' || c == '\u{1680}' || ('\u{2000}' <= c && c <= '\u{200a}')
        || c == '\u{2028}' || c == '\u{2029}' || c == '\u{202f}' || c == '\u{205f}' || c
        == '\u{3000}'
}

/// The Unicode lowercase mapping of a string: the name of what
/// str::to_lowercase returns, a function of the characters alone.
pub uninterp spec fn lower_of(s: Seq<char>) -> Seq<char>;

/// The string with leading whitespace removed.
pub open spec fn trim_front(s: Seq<char>) -> Seq<char>
    decreases s.len(),
{
    if s.len() > 0 && is_space(s[0]) {
        trim_front(s.drop_first())
    } else {
        s
    }
}

/// The string with trailing whitespace removed.
pub open spec fn trim_back(s: Seq<char>) -> Seq<char>
    decreases s.len(),
{
    if s.len() > 0 && is_space(s[s.len() - 1]) {
        trim_back(s.drop_last())
    } else {
        s
    }
}

/// The string with leading and trailing whitespace removed.
pub open spec fn trim_seq(s: Seq<char>) -> Seq<char> {
    trim_back(trim_front(s))
}

/// The normalized lookup key of a name: trimmed, then case-folded.
pub open spec fn key_seq(s: Seq<char>) -> Seq<char> {
    lower_of(trim_seq(s))
}

/// A string is blank when it is empty after trimming.
pub open spec fn is_blank(s: Seq<char>) -> bool {
    trim_seq(s).len() == 0
}

proof fn lemma_trim_front_skip(s: Seq<char>, i: int)
    requires
        0 <= i <= s.len(),
        forall|k: int| 0 <= k < i ==> is_space(s[k]),
        i == s.len() || !is_space(s[i]),
    ensures
        trim_front(s) == s.skip(i),
    decreases i,
{
    if i == 0 {
        assert(s.skip(0) =~= s);
    } else {
        assert(is_space(s[0]));
        let t = s.drop_first();
        assert(t =~= s.skip(1));
        assert(forall|k: int| 0 <= k < i - 1 ==> is_space(#[trigger] t[k]));
        lemma_trim_front_skip(t, i - 1);
        assert(t.skip(i - 1) =~= s.skip(i));
    }
}

proof fn lemma_trim_back_take(s: Seq<char>, j: int)
    requires
        0 <= j <= s.len(),
        forall|k: int| j <= k < s.len() ==> is_space(s[k]),
        j == 0 || !is_space(s[j - 1]),
    ensures
        trim_back(s) == s.take(j),
    decreases s.len() - j,
{
    if j == s.len() {
        assert(s.take(j) =~= s);
    } else {
        assert(is_space(s[s.len() - 1]));
        let t = s.drop_last();
        assert(t =~= s.take(s.len() - 1));
        assert(forall|k: int| j <= k < t.len() ==> is_space(#[trigger] t[k]));
        lemma_trim_back_take(t, j);
        assert(t.take(j) =~= s.take(j));
    }
}

/// Trimming leaves a string without leading or trailing whitespace, and
/// trimming is idempotent.
pub proof fn lemma_trim_seq_clean(s: Seq<char>)
    ensures
        trim_seq(s).len() > 0 ==> !is_space(trim_seq(s)[0]),
        trim_seq(s).len() > 0 ==> !is_space(trim_seq(s)[trim_seq(s).len() - 1]),
        trim_seq(trim_seq(s)) == trim_seq(s),
    decreases s.len(),
{
    lemma_trim_front_props(s);
    let f = trim_front(s);
    lemma_trim_back_props(f);
    let t = trim_back(f);
    if t.len() > 0 {
        assert(!is_space(t[t.len() - 1]));
        assert(!is_space(t[0]));
    }
    lemma_trim_front_skip(t, 0);
    lemma_trim_back_take(t, t.len() as int);
    assert(t.take(t.len() as int) =~= t);
}

proof fn lemma_trim_front_props(s: Seq<char>)
    ensures
        trim_front(s).len() > 0 ==> !is_space(trim_front(s)[0]),
        forall|k: int|
            0 <= k < trim_front(s).len() ==> trim_front(s)[k] == s[s.len() - trim_front(s).len()
                + k],
        trim_front(s).len() <= s.len(),
    decreases s.len(),
{
    if s.len() > 0 && is_space(s[0]) {
        lemma_trim_front_props(s.drop_first());
    }
}

proof fn lemma_trim_back_props(s: Seq<char>)
    ensures
        trim_back(s).len() > 0 ==> !is_space(trim_back(s)[trim_back(s).len() - 1]),
        trim_back(s).len() > 0 ==> trim_back(s)[0] == s[0],
        forall|k: int| 0 <= k < trim_back(s).len() ==> trim_back(s)[k] == s[k],
        trim_back(s).len() <= s.len(),
    decreases s.len(),
{
    if s.len() > 0 && is_space(s[s.len() - 1]) {
        let t = s.drop_last();
        lemma_trim_back_props(t);
        assert(forall|k: int|
            0 <= k < trim_back(s).len() ==> #[trigger] trim_back(s)[k] == t[k] && t[k] == s[k]);
    }
}

/// Whether one character counts as whitespace for trimming.
pub fn is_space_char(c: char) -> (r: bool)
    ensures
        r == is_space(c),
{
    c == ' ' || c == '\t' || c == '\n' || c == '\u{b}' || c == '\u{c}' || c == '\r' || c
        == '\u{85}' || c == '\u{a0}' || c == '\u{1680}' || ('\u{2000}' <= c && c <= '\u{200a}')
        || c == '\u{2028}' || c == '\u{2029}' || c == '\u{202f}' || c == '\u{205f}' || c
        == '\u{3000}'
}

/// The trimmed slice of a string: leading and trailing whitespace removed.
pub fn trim_str<'a>(s: &'a str) -> (r: &'a str)
    ensures
        r@ == trim_seq(s@),
{
    let n = s.unicode_len();
    let mut i: usize = 0;
    while i < n && is_space_char(s.get_char(i))
        invariant
            0 <= i <= n,
            n == s@.len(),
            forall|k: int| 0 <= k < i ==> is_space(s@[k]),
        decreases n - i,
    {
        i = i + 1;
    }
    let mut j: usize = n;
    while j > i && is_space_char(s.get_char(j - 1))
        invariant
            i <= j <= n,
            n == s@.len(),
            forall|k: int| j <= k < n ==> is_space(s@[k]),
        decreases j,
    {
        j = j - 1;
    }
    let r = s.substring_char(i, j);
    proof {
        lemma_trim_front_skip(s@, i as int);
        let f = s@.skip(i as int);
        assert(forall|k: int| j - i <= k < f.len() ==> is_space(#[trigger] f[k]));
        lemma_trim_back_take(f, j - i);
        assert(f.take(j - i) =~= s@.subrange(i as int, j as int));
    }
    r
}

/// The normalized lookup key of a name: trimmed, then case-folded.
pub fn normalize_key(s: &str) -> (r: String)
    ensures
        r@ == key_seq(s@),
{
    lowercase(trim_str(s))
}

/// Whether a string is blank: empty once trimmed.
pub fn is_blank_str(s: &str) -> (r: bool)
    ensures
        r == is_blank(s@),
{
    let t = trim_str(s);
    t.unicode_len() == 0
}

/// Character-for-character string equality.
pub fn str_eq(a: &str, b: &str) -> (r: bool)
    ensures
        r == (a@ == b@),
{
    let n = a.unicode_len();
    let m = b.unicode_len();
    if n != m {
        proof {
            assert(a@.len() != b@.len());
        }
        return false;
    }
    let mut i: usize = 0;
    while i < n
        invariant
            0 <= i <= n,
            n == a@.len(),
            n == b@.len(),
            forall|k: int| 0 <= k < i ==> a@[k] == b@[k],
        decreases n - i,
    {
        if a.get_char(i) != b.get_char(i) {
            return false;
        }
        i = i + 1;
    }
    proof {
        assert(a@ =~= b@);
    }
    true
}

} // verus!
