//! Order: the files of a novel's directory that hold chapters, by name.

use vstd::prelude::*;
use vstd::multiset::Multiset;
use crate::naming::{chapter_file_name, is_chapter_file, is_chapter_name, lemma_names_in_order};
use crate::text::chars_of;

verus! {

/// A file of a novel's directory, read back from disk.
pub struct StoredFile {
    /// The name of the file within the directory.
    pub name: String,
    /// What the file holds.
    pub contents: String,
}

/// How far `a` and `b` are the same from `from` on: the first index at
/// which they differ, or the length of the shorter.
pub open spec fn common_prefix_len(a: Seq<char>, b: Seq<char>, from: int) -> int
    decreases a.len() - from,
{
    if 0 <= from < a.len() && from < b.len() && a[from] == b[from] {
        common_prefix_len(a, b, from + 1)
    } else {
        from
    }
}

/// Whether `a` comes before `b`: at the first character in which they
/// differ `a` has the lesser one, or `a` ends there and `b` goes on.
pub open spec fn precedes(a: Seq<char>, b: Seq<char>) -> bool {
    let k = common_prefix_len(a, b, 0);
    if k < a.len() && k < b.len() {
        (a[k] as u32) < (b[k] as u32)
    } else {
        a.len() < b.len()
    }
}

/// Whether the files stand by name, each before or beside the next.
pub open spec fn is_ordered(files: Seq<StoredFile>) -> bool {
    forall|i: int, j: int|
        0 <= i < j < files.len() ==> !precedes(#[trigger] files[j].name@, #[trigger] files[i].name@)
}

/// The files that hold chapters, in the order in which they stand.
pub open spec fn chapters_among(files: Seq<StoredFile>) -> Seq<StoredFile> {
    files.filter(|f: StoredFile| is_chapter_name(f.name@))
}

/// Up to their common prefix two sequences are the same, and after it they
/// differ or one of them ends.
pub proof fn lemma_common_prefix(a: Seq<char>, b: Seq<char>, from: int)
    requires
        0 <= from <= a.len(),
        from <= b.len(),
    ensures
        from <= common_prefix_len(a, b, from) <= a.len(),
        common_prefix_len(a, b, from) <= b.len(),
        forall|i: int| from <= i < common_prefix_len(a, b, from) ==> a[i] == b[i],
        common_prefix_len(a, b, from) < a.len() && common_prefix_len(a, b, from) < b.len()
            ==> a[common_prefix_len(a, b, from)] != b[common_prefix_len(a, b, from)],
    decreases a.len() - from,
{
    if from < a.len() && from < b.len() && a[from] == b[from] {
        lemma_common_prefix(a, b, from + 1);
    }
}

/// What comes before something that comes before a third comes before the
/// third, and nothing comes before itself.
pub proof fn lemma_precedes_order(a: Seq<char>, b: Seq<char>, c: Seq<char>)
    ensures
        !precedes(a, a),
        precedes(a, b) && precedes(b, c) ==> precedes(a, c),
        precedes(a, b) ==> !precedes(b, a),
{
    lemma_common_prefix(a, a, 0);
    lemma_common_prefix(a, b, 0);
    lemma_common_prefix(b, a, 0);
    lemma_common_prefix(b, c, 0);
    lemma_common_prefix(a, c, 0);
}

/// Files that stand by name stand by number: where two of them are named as
/// the chapters with the numbers `a` and `b` are, numbers of no more than
/// eight digits, and the first stands before the second, `a` is not the
/// greater.
pub proof fn lemma_ordered_by_number(
    files: Seq<StoredFile>,
    i: int,
    j: int,
    a: nat,
    b: nat,
    first: Seq<char>,
    second: Seq<char>,
)
    requires
        is_ordered(files),
        0 <= i < j < files.len(),
        files[i].name@ == chapter_file_name(a, first),
        files[j].name@ == chapter_file_name(b, second),
        a < 100_000_000,
        b < 100_000_000,
    ensures
        a <= b,
{
    if b < a {
        lemma_names_in_order(b, a, second, first);
    }
}

/// Whether `a` comes before `b`.
pub fn comes_before(a: &str, b: &str) -> (before: bool)
    ensures
        before == precedes(a@, b@),
{
    let a = chars_of(a);
    let b = chars_of(b);
    let mut k: usize = 0;
    while k < a.len() && k < b.len() && a[k] == b[k]
        invariant
            k <= a.len(),
            k <= b.len(),
            common_prefix_len(a@, b@, 0) == common_prefix_len(a@, b@, k as int),
        decreases a.len() - k,
    {
        k += 1;
    }
    if k < a.len() && k < b.len() {
        (a[k] as u32) < (b[k] as u32)
    } else {
        a.len() < b.len()
    }
}

/// Where a file of the name `name` goes among `files`, which stand in order:
/// before the first that it comes before.
fn place_of(files: &Vec<StoredFile>, name: &str) -> (at: usize)
    ensures
        at <= files.len(),
        forall|i: int| 0 <= i < at ==> !precedes(name@, #[trigger] files[i].name@),
        at < files.len() ==> precedes(name@, files[at as int].name@),
{
    let mut at: usize = 0;
    while at < files.len() && !comes_before(name, files[at].name.as_str())
        invariant
            at <= files.len(),
            forall|i: int| 0 <= i < at ==> !precedes(name@, #[trigger] files[i].name@),
        decreases files.len() - at,
    {
        at += 1;
    }
    at
}

/// The files that hold chapters, in the order of their names. No file is
/// lost and none is made: what comes out are the files of `files` whose names
/// end as a chapter's does.
pub fn order_chapters(files: Vec<StoredFile>) -> (out: Vec<StoredFile>)
    ensures
        is_ordered(out@),
        out@.to_multiset() == chapters_among(files@).to_multiset(),
{
    let mut rest = files;
    let mut out: Vec<StoredFile> = Vec::new();
    proof {
        broadcast use vstd::multiset::group_multiset_axioms;
        assert(out@.to_multiset() =~= Multiset::<StoredFile>::empty()) by {
            out@.to_multiset_ensures();
        }
    }
    while rest.len() > 0
        invariant
            is_ordered(out@),
            out@.to_multiset().add(chapters_among(rest@).to_multiset()) == chapters_among(
                files@,
            ).to_multiset(),
        decreases rest.len(),
    {
        let ghost before = rest@;
        let ghost sorted = out@;
        let file = rest.pop().unwrap();
        proof {
            reveal(Seq::filter);
            assert(rest@ =~= before.drop_last());
            assert(file == before.last());
        }
        if is_chapter_file(file.name.as_str()) {
            let at = place_of(&out, file.name.as_str());
            out.insert(at, file);
            proof {
                broadcast use vstd::multiset::group_multiset_axioms;
                vstd::seq_lib::to_multiset_insert(sorted, at as int, file);
                vstd::seq_lib::to_multiset_build(chapters_among(rest@), file);
                assert(chapters_among(before) == chapters_among(rest@).push(file));
                assert(out@.to_multiset().add(chapters_among(rest@).to_multiset())
                    =~= sorted.to_multiset().add(chapters_among(before).to_multiset()));
                assert forall|i: int, j: int| 0 <= i < j < out@.len() implies !precedes(
                    #[trigger] out@[j].name@,
                    #[trigger] out@[i].name@,
                ) by {
                    if j == at {
                        assert(out@[i] == sorted[i]);
                    } else if i == at {
                        assert(out@[j] == sorted[j - 1]);
                        lemma_precedes_order(sorted[j - 1].name@, file.name@, sorted[at as int].name@);
                        if j - 1 > at {
                            assert(!precedes(sorted[j - 1].name@, sorted[at as int].name@));
                        }
                    } else {
                        let oi = if i < at { i } else { i - 1 };
                        let oj = if j < at { j } else { j - 1 };
                        assert(out@[i] == sorted[oi]);
                        assert(out@[j] == sorted[oj]);
                    }
                }
            }
        } else {
            proof {
                assert(chapters_among(before) == chapters_among(rest@));
            }
        }
    }
    proof {
        reveal(Seq::filter);
        assert(rest@.len() == 0);
        broadcast use vstd::multiset::group_multiset_axioms;
        assert(chapters_among(rest@).to_multiset() =~= Multiset::<StoredFile>::empty()) by {
            chapters_among(rest@).to_multiset_ensures();
        }
    }
    out
}

} // verus!
