//! Titles: what is taken out of the text of a heading before it names a
//! directory, a file and a book.

use vstd::prelude::*;
use crate::error::{outcome, Failure, NovelError};
use crate::text::{
    chars_of, is_space, lemma_run_end, lemma_run_start, space, string_of, trim, trimmed, Class,
};

verus! {

/// Whether `c` may not stand in a title: a backslash, a slash, a colon, a
/// double quote, a question mark, a carriage return or a line feed.
pub open spec fn is_forbidden(c: char) -> bool {
    c == '\\' || c == '/' || c == ':' || c == '"' || c == '?' || c == '\r' || c == '\n'
}

/// Whether `c` may not stand in a title.
pub fn forbidden(c: char) -> (b: bool)
    ensures
        b == is_forbidden(c),
{
    c == '\\' || c == '/' || c == ':' || c == '"' || c == '?' || c == '\r' || c == '\n'
}

/// `s` without its forbidden characters.
pub open spec fn without_forbidden(s: Seq<char>) -> Seq<char> {
    s.filter(|c: char| !is_forbidden(c))
}

/// Whether the character at `i` is white space next to white space.
pub open spec fn in_space_run(s: Seq<char>, i: int) -> bool {
    &&& 0 <= i < s.len()
    &&& is_space(s[i])
    &&& (i > 0 && is_space(s[i - 1])) || (i + 1 < s.len() && is_space(s[i + 1]))
}

/// The first `n` characters of `s` without those that are white space next
/// to white space.
pub open spec fn without_space_runs_to(s: Seq<char>, n: int) -> Seq<char>
    decreases n,
{
    if n <= 0 {
        Seq::empty()
    } else if in_space_run(s, n - 1) {
        without_space_runs_to(s, n - 1)
    } else {
        without_space_runs_to(s, n - 1).push(s[n - 1])
    }
}

/// `s` without its runs of two or more white-space characters. A single
/// white-space character between two others stays.
pub open spec fn without_space_runs(s: Seq<char>) -> Seq<char> {
    without_space_runs_to(s, s.len() as int)
}

/// The title that the text `raw` gives: trimmed, freed of forbidden
/// characters, trimmed again, and freed of runs of white space.
pub open spec fn normalized(raw: Seq<char>) -> Seq<char> {
    without_space_runs(trimmed(without_forbidden(trimmed(raw))))
}

/// The title that the text `raw` gives, which may not be empty.
pub open spec fn title_of(raw: Seq<char>) -> Result<Seq<char>, Failure> {
    if normalized(raw).len() == 0 {
        Err(Failure::EmptyField)
    } else {
        Ok(normalized(raw))
    }
}

/// Whether no character of `s` is forbidden.
pub open spec fn is_clean(s: Seq<char>) -> bool {
    forall|i: int| 0 <= i < s.len() ==> !is_forbidden(#[trigger] s[i])
}

proof fn lemma_trimmed_clean(s: Seq<char>)
    requires
        is_clean(s),
    ensures
        is_clean(trimmed(s)),
{
    lemma_run_end(s, Class::Space, 0);
    lemma_run_start(s, Class::Space, s.len() as int);
}

proof fn lemma_without_space_runs_clean(s: Seq<char>, n: int)
    requires
        is_clean(s),
        n <= s.len(),
    ensures
        is_clean(without_space_runs_to(s, n)),
    decreases n,
{
    if n > 0 {
        lemma_without_space_runs_clean(s, n - 1);
    }
}

/// No title holds a forbidden character, whatever text it was made from.
pub proof fn lemma_normalized_clean(raw: Seq<char>)
    ensures
        is_clean(normalized(raw)),
{
    let a = trimmed(raw);
    let b = without_forbidden(a);
    assert(is_clean(b)) by {
        broadcast use Seq::lemma_filter_pred;
    }
    lemma_trimmed_clean(b);
    lemma_without_space_runs_clean(trimmed(b), trimmed(b).len() as int);
}

/// Whether no two characters of `s` that stand side by side are both white
/// space.
pub open spec fn is_spaced(s: Seq<char>) -> bool {
    forall|i: int| 0 <= i < s.len() - 1 ==> !(is_space(#[trigger] s[i]) && is_space(s[i + 1]))
}

proof fn lemma_without_space_runs_spaced(s: Seq<char>, n: int)
    requires
        0 <= n <= s.len(),
    ensures
        is_spaced(without_space_runs_to(s, n)),
        without_space_runs_to(s, n).len() > 0 && is_space(without_space_runs_to(s, n).last())
            ==> n > 0 && !in_space_run(s, n - 1),
    decreases n,
{
    if n > 0 {
        lemma_without_space_runs_spaced(s, n - 1);
        let before = without_space_runs_to(s, n - 1);
        let out = without_space_runs_to(s, n);
        if !in_space_run(s, n - 1) {
            assert forall|i: int| 0 <= i < out.len() - 1 implies !(is_space(#[trigger] out[i])
                && is_space(out[i + 1])) by {
                if i < before.len() - 1 {
                    assert(out[i] == before[i] && out[i + 1] == before[i + 1]);
                } else {
                    assert(out[i] == before.last() && out[i + 1] == s[n - 1]);
                }
            }
        }
    }
}

/// In no title do two white-space characters stand side by side, whatever
/// text it was made from.
pub proof fn lemma_normalized_spaced(raw: Seq<char>)
    ensures
        is_spaced(normalized(raw)),
{
    let text = trimmed(without_forbidden(trimmed(raw)));
    lemma_without_space_runs_spaced(text, text.len() as int);
}

/// Takes the forbidden characters out of `s`.
pub fn strip_forbidden(s: &Vec<char>) -> (out: Vec<char>)
    ensures
        out@ == without_forbidden(s@),
{
    let mut out: Vec<char> = Vec::new();
    let mut i: usize = 0;
    proof {
        reveal(Seq::filter);
    }
    while i < s.len()
        invariant
            i <= s.len(),
            out@ == without_forbidden(s@.take(i as int)),
        decreases s.len() - i,
    {
        proof {
            reveal(Seq::filter);
            assert(s@.take(i + 1).drop_last() =~= s@.take(i as int));
        }
        if !forbidden(s[i]) {
            out.push(s[i]);
        }
        i += 1;
    }
    assert(s@.take(s.len() as int) =~= s@);
    out
}

/// Takes the runs of two or more white-space characters out of `s`.
pub fn drop_space_runs(s: &Vec<char>) -> (out: Vec<char>)
    ensures
        out@ == without_space_runs(s@),
{
    let mut out: Vec<char> = Vec::new();
    let mut i: usize = 0;
    while i < s.len()
        invariant
            i <= s.len(),
            out@ == without_space_runs_to(s@, i as int),
        decreases s.len() - i,
    {
        let here = space(s[i]);
        let before = i > 0 && space(s[i - 1]);
        let after = i + 1 < s.len() && space(s[i + 1]);
        if !(here && (before || after)) {
            out.push(s[i]);
        }
        i += 1;
    }
    out
}

/// Makes a title of the text `raw`. Fails with `EmptyField` where nothing is
/// left of it.
pub fn normalize(raw: &str) -> (res: Result<String, NovelError>)
    ensures
        outcome(res) == title_of(raw@),
        res matches Ok(title) ==> title@.len() > 0 && is_clean(title@) && is_spaced(title@),
{
    let text = chars_of(raw);
    let text = trim(&text);
    let text = strip_forbidden(&text);
    let text = trim(&text);
    let text = drop_space_runs(&text);
    proof {
        lemma_normalized_clean(raw@);
        lemma_normalized_spaced(raw@);
    }
    if text.len() == 0 {
        Err(NovelError::EmptyField)
    } else {
        Ok(string_of(&text))
    }
}

} // verus!
