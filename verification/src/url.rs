//! Addresses: the host that a novel's address starts with, the one site
//! whose novels are taken, and the kind of image that an address names.

use vstd::prelude::*;
use crate::error::{outcome, Failure, NovelError};
use crate::text::{
    append_range, chars_of, is_digit, is_letter, lemma_run_end, lemma_run_start, occurs_at,
    run_end, run_start, scan_backward, scan_forward, stands_at, string_of, Class,
};

verus! {

/// The domain of the one site that is supported.
pub const SITE: &'static str = "lightnovelworld.com";

/// Whether an index that was computed is the index that was specified.
pub open spec fn same_index(found: Option<usize>, wanted: Option<int>) -> bool {
    match found {
        Some(i) => wanted == Some(i as int),
        None => wanted is None,
    }
}

/// Where `pat` ends if it stands in `s` at `from`.
pub open spec fn after_literal(s: Seq<char>, pat: Seq<char>, from: int) -> Option<int> {
    if occurs_at(s, pat, from) {
        Some(from + pat.len())
    } else {
        None
    }
}

/// Where the label that starts at `from` ends: a label is a run of one or
/// more letters, taken as long as it goes.
pub open spec fn after_label(s: Seq<char>, from: int) -> Option<int> {
    if run_end(s, Class::Letter, from) > from {
        Some(run_end(s, Class::Letter, from))
    } else {
        None
    }
}

/// Where the scheme ends that `url` starts with: after `http`, any number
/// of `s`, and `://`.
pub open spec fn scheme_end(url: Seq<char>) -> Option<int> {
    match after_literal(url, "http"@, 0) {
        None => None,
        Some(a) => after_literal(url, "://"@, run_end(url, Class::Only('s'), a)),
    }
}

/// Where the next label ends, if a dot and a label follow `end`.
pub open spec fn next_label(s: Seq<char>, end: int) -> Option<int> {
    match after_literal(s, "."@, end) {
        None => None,
        Some(start) => after_label(s, start),
    }
}

/// Where the labels end that go on from `end`, the end of a label: after as
/// many more labels, a dot before each, as stand there.
pub open spec fn last_label_end(s: Seq<char>, end: int) -> int
    decreases s.len() - end,
    via last_label_end_decreases
{
    match next_label(s, end) {
        Some(next) => last_label_end(s, next),
        None => end,
    }
}

#[via_fn]
proof fn last_label_end_decreases(s: Seq<char>, end: int) {
    lemma_next_label(s, end);
}

/// A label that follows lies within the sequence, after the dot.
pub proof fn lemma_next_label(s: Seq<char>, end: int)
    ensures
        next_label(s, end) matches Some(next) ==> 0 <= end < next <= s.len(),
{
    if let Some(start) = after_literal(s, "."@, end) {
        lemma_run_end(s, Class::Letter, start);
    }
}

/// Where the host ends that `url` starts with: after the scheme, two labels
/// with a dot between them, and as many more labels as stand there.
pub open spec fn host_end(url: Seq<char>) -> Option<int> {
    match scheme_end(url) {
        None => None,
        Some(start) => match after_label(url, start) {
            None => None,
            Some(first) => match next_label(url, first) {
                None => None,
                Some(second) => Some(last_label_end(url, second)),
            },
        },
    }
}

/// The host that `url` starts with, scheme included.
pub open spec fn host_of(url: Seq<char>) -> Result<Seq<char>, Failure> {
    match host_end(url) {
        Some(end) => Ok(url.take(end)),
        None => Err(Failure::InvalidUrl),
    }
}

fn skip_literal(s: &Vec<char>, pat: &str, from: usize) -> (end: Option<usize>)
    ensures
        same_index(end, after_literal(s@, pat@, from as int)),
        end matches Some(e) ==> from <= e <= s.len(),
{
    let pat = chars_of(pat);
    if stands_at(s, &pat, from) {
        Some(from + pat.len())
    } else {
        None
    }
}

fn skip_label(s: &Vec<char>, from: usize) -> (end: Option<usize>)
    ensures
        same_index(end, after_label(s@, from as int)),
        end matches Some(e) ==> from < e,
{
    let end = scan_forward(s, Class::Letter, from);
    if end > from {
        Some(end)
    } else {
        None
    }
}

fn skip_next_label(s: &Vec<char>, end: usize) -> (next: Option<usize>)
    ensures
        same_index(next, next_label(s@, end as int)),
        next matches Some(e) ==> end < e <= s.len(),
{
    proof {
        lemma_next_label(s@, end as int);
    }
    match skip_literal(s, ".", end) {
        Some(start) => skip_label(s, start),
        None => None,
    }
}

fn find_host_end(url: &Vec<char>) -> (end: Option<usize>)
    ensures
        same_index(end, host_end(url@)),
        end matches Some(e) ==> e <= url.len(),
{
    let a = match skip_literal(url, "http", 0) {
        Some(a) => a,
        None => {
            return None;
        },
    };
    let a = scan_forward(url, Class::Only('s'), a);
    let start = match skip_literal(url, "://", a) {
        Some(start) => start,
        None => {
            return None;
        },
    };
    let first = match skip_label(url, start) {
        Some(first) => first,
        None => {
            return None;
        },
    };
    let second = match skip_next_label(url, first) {
        Some(second) => second,
        None => {
            return None;
        },
    };
    let mut end: usize = second;
    loop
        invariant
            end <= url.len(),
            host_end(url@) == Some(last_label_end(url@, second as int)),
            last_label_end(url@, second as int) == last_label_end(url@, end as int),
        decreases url.len() - end,
    {
        end = match skip_next_label(url, end) {
            Some(next) => next,
            None => {
                return Some(end);
            },
        };
    }
}

/// The host that `url` starts with, scheme included. Fails with `InvalidUrl`
/// where `url` starts with none.
pub fn host(url: &str) -> (res: Result<String, NovelError>)
    ensures
        outcome(res) == host_of(url@),
{
    let text = chars_of(url);
    match find_host_end(&text) {
        Some(end) => {
            let mut out: Vec<char> = Vec::new();
            append_range(&mut out, &text, 0, end);
            Ok(string_of(&out))
        },
        None => Err(NovelError::InvalidUrl),
    }
}

/// The labels that go on from the end of a label end within the sequence,
/// and no further label follows them.
pub proof fn lemma_last_label_end(s: Seq<char>, end: int)
    requires
        0 <= end <= s.len(),
    ensures
        end <= last_label_end(s, end) <= s.len(),
        next_label(s, last_label_end(s, end)) is None,
    decreases s.len() - end,
{
    lemma_next_label(s, end);
    if let Some(next) = next_label(s, end) {
        lemma_last_label_end(s, next);
    }
}

/// An address has a host exactly where a scheme and two labels stand at its
/// start: with fewer than two labels after the scheme there is none, and two
/// are enough. The host is the start of the address, and no label that
/// follows it is left out.
pub proof fn lemma_host_needs_labels(url: Seq<char>)
    ensures
        host_of(url) is Ok <==> (scheme_end(url) matches Some(start) && (after_label(
            url,
            start,
        ) matches Some(first) && next_label(url, first) is Some)),
        host_of(url) is Err ==> host_of(url) == Err::<Seq<char>, Failure>(Failure::InvalidUrl),
        host_of(url) matches Ok(h) ==> h.len() <= url.len() && h == url.take(h.len() as int)
            && next_label(url, h.len() as int) is None,
{
    if let Some(start) = scheme_end(url) {
        if let Some(first) = after_label(url, start) {
            lemma_next_label(url, first);
            if let Some(second) = next_label(url, first) {
                lemma_last_label_end(url, second);
            }
        }
    }
}

/// Where the file extension lies in `url`: the letters at its end, or
/// before `?v=` and digits at its end.
pub open spec fn kind_span(url: Seq<char>) -> (int, int) {
    let digits = run_start(url, Class::Digit, url.len() as int);
    let end = if occurs_at(url, "?v="@, digits - "?v="@.len()) {
        digits - "?v="@.len()
    } else {
        url.len() as int
    };
    (run_start(url, Class::Letter, end), end)
}

/// The kind of image that `url` names: its file extension.
pub open spec fn image_kind_of(url: Seq<char>) -> Result<Seq<char>, Failure> {
    let (start, end) = kind_span(url);
    if start < end {
        Ok(url.subrange(start, end))
    } else {
        Err(Failure::ImageKindUnrecognized)
    }
}

/// The kind of image that an address names is made of letters, one at
/// least, and nothing but a version mark stands between it and the end of
/// the address.
pub proof fn lemma_image_kind(url: Seq<char>)
    ensures
        image_kind_of(url) matches Ok(kind) ==> kind.len() > 0 && (forall|i: int|
            0 <= i < kind.len() ==> is_letter(#[trigger] kind[i])) && kind == url.subrange(
            kind_span(url).0,
            kind_span(url).1,
        ) && (kind_span(url).1 == url.len() || (occurs_at(url, "?v="@, kind_span(url).1)
            && forall|i: int|
            kind_span(url).1 + "?v="@.len() <= i < url.len() ==> is_digit(#[trigger] url[i]))),
        url.len() == 0 ==> image_kind_of(url) is Err,
{
    let digits = run_start(url, Class::Digit, url.len() as int);
    lemma_run_start(url, Class::Digit, url.len() as int);
    let end = kind_span(url).1;
    if 0 <= end <= url.len() {
        lemma_run_start(url, Class::Letter, end);
    }
}

/// The kind of image that `url` names. Fails with `ImageKindUnrecognized`
/// where no letter stands at the end of `url`, a version mark set aside.
pub fn image_kind(url: &str) -> (res: Result<String, NovelError>)
    ensures
        outcome(res) == image_kind_of(url@),
{
    let text = chars_of(url);
    let mark = chars_of("?v=");
    let digits = scan_backward(&text, Class::Digit, text.len());
    let end = if digits >= mark.len() && stands_at(&text, &mark, digits - mark.len()) {
        digits - mark.len()
    } else {
        text.len()
    };
    let start = scan_backward(&text, Class::Letter, end);
    if start < end {
        let mut out: Vec<char> = Vec::new();
        append_range(&mut out, &text, start, end);
        Ok(string_of(&out))
    } else {
        Err(NovelError::ImageKindUnrecognized)
    }
}

/// Whether `host` is a host of the supported site: the site's domain stands
/// at its end, after the scheme or after the dot that ends another label.
pub open spec fn is_site(host: Seq<char>) -> bool {
    let at = host.len() - SITE@.len();
    at >= 1 && occurs_at(host, SITE@, at) && (host[at - 1] == '.' || host[at - 1] == '/')
}

/// Whether `url` names the supported site: it has a host, and the host is
/// one of the site.
pub open spec fn is_supported(url: Seq<char>) -> bool {
    host_of(url) matches Ok(host) && is_site(host)
}

/// The address that the arguments of the program give: exactly one, after
/// the program's own name, with a host, on the supported site.
pub open spec fn checked_arg(args: Seq<Seq<char>>) -> Result<Seq<char>, Failure> {
    if args.len() != 2 {
        Err(Failure::UsageError)
    } else if host_of(args[1]) is Err {
        Err(Failure::InvalidUrl)
    } else if !is_supported(args[1]) {
        Err(Failure::UnsupportedSource)
    } else {
        Ok(args[1])
    }
}

/// Whether `host` is a host of the supported site.
pub fn site_host(host: &str) -> (b: bool)
    ensures
        b == is_site(host@),
{
    let host = chars_of(host);
    let site = chars_of(SITE);
    if host.len() <= site.len() {
        return false;
    }
    let at = host.len() - site.len();
    stands_at(&host, &site, at) && (host[at - 1] == '.' || host[at - 1] == '/')
}

/// Checks the arguments of the program, its own name first, and gives the
/// address of the novel. Fails with `UsageError` where there is not exactly
/// one argument, with `InvalidUrl` where it starts with no host, and with
/// `UnsupportedSource` where the host is none of the supported site: no
/// address of another site comes through, whatever stands after its host.
pub fn validate_arg(args: &Vec<String>) -> (res: Result<String, NovelError>)
    ensures
        outcome(res) == checked_arg(args.deep_view()),
        res matches Ok(url) ==> is_supported(url@),
        args.deep_view().len() == 2 && !is_supported(args.deep_view()[1]) ==> res is Err,
{
    if args.len() != 2 {
        return Err(NovelError::UsageError);
    }
    let arg = args[1].clone();
    let found = match host(arg.as_str()) {
        Ok(found) => found,
        Err(_) => {
            return Err(NovelError::InvalidUrl);
        },
    };
    if site_host(found.as_str()) {
        Ok(arg)
    } else {
        Err(NovelError::UnsupportedSource)
    }
}

} // verus!
