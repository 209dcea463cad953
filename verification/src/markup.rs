//! Markup: the blocks that are cut out of a chapter's body, and the
//! document that a chapter is stored as.

use vstd::prelude::*;
use vstd::string::StringExecFns;
use crate::text::{
    append_range, chars_of, find, first_occurrence, lemma_first_occurrence, string_of,
};

verus! {

/// How a block opens.
pub const BLOCK_OPEN: &'static str = "<div";

/// How a block closes.
pub const BLOCK_CLOSE: &'static str = "</div>";

/// Where the first block of `s` starts and ends: from the first opening to
/// the end of the first closing after it. A block within a block is not
/// told apart: the outer one ends where the inner one closes.
pub open spec fn first_block(s: Seq<char>) -> Option<(int, int)> {
    match first_occurrence(s, BLOCK_OPEN@, 0) {
        None => None,
        Some(start) => match first_occurrence(s, BLOCK_CLOSE@, start + BLOCK_OPEN@.len()) {
            None => None,
            Some(close) => Some((start, close + BLOCK_CLOSE@.len())),
        },
    }
}

/// `s` without the characters from `start` up to `end`.
pub open spec fn cut(s: Seq<char>, start: int, end: int) -> Seq<char> {
    s.take(start) + s.skip(end)
}

/// `s` after its first block was cut out, again and again, until it holds
/// none.
pub open spec fn without_blocks(s: Seq<char>) -> Seq<char>
    decreases s.len(),
    via without_blocks_decreases
{
    match first_block(s) {
        Some((start, end)) => without_blocks(cut(s, start, end)),
        None => s,
    }
}

#[via_fn]
proof fn without_blocks_decreases(s: Seq<char>) {
    lemma_first_block(s);
}

/// A block lies within the sequence and is not empty.
pub proof fn lemma_first_block(s: Seq<char>)
    ensures
        first_block(s) matches Some((start, end)) ==> 0 <= start < end <= s.len() && cut(
            s,
            start,
            end,
        ).len() < s.len(),
{
    reveal_strlit("<div");
    reveal_strlit("</div>");
    lemma_first_occurrence(s, BLOCK_OPEN@, 0);
    if let Some(start) = first_occurrence(s, BLOCK_OPEN@, 0) {
        lemma_first_occurrence(s, BLOCK_CLOSE@, start + BLOCK_OPEN@.len());
    }
}

/// What is left after the blocks were cut out holds no block, so to cut
/// again changes nothing.
pub proof fn lemma_without_blocks(s: Seq<char>)
    ensures
        first_block(without_blocks(s)) is None,
        without_blocks(without_blocks(s)) == without_blocks(s),
    decreases s.len(),
{
    lemma_first_block(s);
    if let Some((start, end)) = first_block(s) {
        lemma_without_blocks(cut(s, start, end));
    }
}

/// Cuts the blocks out of `text`.
pub fn remove_ad(text: &str) -> (out: String)
    ensures
        out@ == without_blocks(text@),
        first_block(out@) is None,
{
    let open = chars_of(BLOCK_OPEN);
    let close = chars_of(BLOCK_CLOSE);
    let mut rest = chars_of(text);
    loop
        invariant
            open@ == BLOCK_OPEN@,
            close@ == BLOCK_CLOSE@,
            without_blocks(rest@) == without_blocks(text@),
        ensures
            rest@ == without_blocks(text@),
            first_block(rest@) is None,
        decreases rest.len(),
    {
        proof {
            lemma_first_block(rest@);
            lemma_first_occurrence(rest@, BLOCK_OPEN@, 0);
        }
        let start = match find(&rest, &open, 0) {
            Some(start) => start,
            None => {
                break ;
            },
        };
        proof {
            lemma_first_occurrence(rest@, BLOCK_CLOSE@, start + BLOCK_OPEN@.len());
        }
        let end = match find(&rest, &close, start + open.len()) {
            Some(at) => at + close.len(),
            None => {
                break ;
            },
        };
        let mut shorter: Vec<char> = Vec::new();
        append_range(&mut shorter, &rest, 0, start);
        append_range(&mut shorter, &rest, end, rest.len());
        assert(shorter@ =~= cut(rest@, start as int, end as int));
        rest = shorter;
    }
    string_of(&rest)
}

/// What stands for the character `c` in the text of an element.
pub open spec fn escaped_char(c: char) -> Seq<char> {
    if c == '&' {
        "&amp;"@
    } else if c == '<' {
        "&lt;"@
    } else if c == '>' {
        "&gt;"@
    } else {
        seq![c]
    }
}

/// `s` as the text of an element: each `&`, `<` and `>` by its entity.
pub open spec fn escaped(s: Seq<char>) -> Seq<char>
    decreases s.len(),
{
    if s.len() == 0 {
        Seq::empty()
    } else {
        escaped(s.drop_last()) + escaped_char(s.last())
    }
}

/// Writes `text` as the text of an element.
pub fn escape(text: &str) -> (out: String)
    ensures
        out@ == escaped(text@),
{
    let text = chars_of(text);
    let mut out = String::new();
    let mut i: usize = 0;
    while i < text.len()
        invariant
            i <= text.len(),
            out@ == escaped(text@.take(i as int)),
        decreases text.len() - i,
    {
        proof {
            assert(text@.take(i + 1).drop_last() =~= text@.take(i as int));
        }
        let c = text[i];
        if c == '&' {
            out.append("&amp;");
        } else if c == '<' {
            out.append("&lt;");
        } else if c == '>' {
            out.append("&gt;");
        } else {
            let mut one: Vec<char> = Vec::new();
            one.push(c);
            let one = string_of(&one);
            out.append(one.as_str());
        }
        i += 1;
    }
    assert(text@.take(text.len() as int) =~= text@);
    out
}

/// What a chapter's document holds before the title.
pub const DOCUMENT_HEAD: &'static str =
    "<?xml version='1.0' encoding='utf-8'?>\n<!DOCTYPE html>\n<html xmlns=\"http://www.w3.org/1999/xhtml\" xml:lang=\"en-US\">\n <head>\n<meta http-equiv=\"Content-Type\" content=\"text/html; charset=utf-8\" /> </head>\n <body>\n  <h1>\n";

/// What it holds between the title and the body.
pub const DOCUMENT_NECK: &'static str = "\n  </h1>\n </body>\n <body>\n";

/// What it holds after the body.
pub const DOCUMENT_FOOT: &'static str = "\n </body>\n</html>\n";

/// The document of a chapter: the title as the text of the one heading, and
/// the body as it is, markup and all.
pub open spec fn document_of(title: Seq<char>, body: Seq<char>) -> Seq<char> {
    DOCUMENT_HEAD@ + escaped(title) + DOCUMENT_NECK@ + body + DOCUMENT_FOOT@
}

/// Writes the document of a chapter.
pub fn compose_document(title: &str, body: &str) -> (out: String)
    ensures
        out@ == document_of(title@, body@),
{
    let mut out = String::from_str(DOCUMENT_HEAD);
    let heading = escape(title);
    out.append(heading.as_str());
    out.append(DOCUMENT_NECK);
    out.append(body);
    out.append(DOCUMENT_FOOT);
    out
}

} // verus!
