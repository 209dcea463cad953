//! The archive: the book that is made of a novel's stored files, the cover
//! first, then the chapters by name, then the table of contents.

use vstd::prelude::*;
use vstd::string::StringExecFns;
use vstd::utf8::encode_utf8;
use crate::error::NovelError;
use crate::naming::{chapter_name, display_title};
use crate::order::{chapters_among, is_ordered, order_chapters, StoredFile};

verus! {

#[verifier::external_type_specification]
#[verifier::external_body]
pub struct ExZipLibrary(epub_builder::ZipLibrary);

#[verifier::external_type_specification]
#[verifier::external_body]
pub struct ExEncoderError(epub_builder::Error);

/// A book in the making: an `epub_builder::EpubBuilder` with a
/// `ZipLibrary`, a writer of zip files in memory, behind it. The builder is
/// bound by a trait that its crate keeps to itself, so it is held here, out
/// of the verifier's sight, and known only by what it was handed.
#[verifier::external_body]
pub struct Archive {
    builder: epub_builder::EpubBuilder<epub_builder::ZipLibrary>,
}

/// What was handed to an archive in one call.
pub enum ArchiveItem {
    /// The cover image: its path in the archive, its media type, its bytes.
    Cover { path: Seq<char>, mime: Seq<char>, data: Seq<u8> },
    /// A chapter: its path in the archive, its title in the table of
    /// contents, its bytes.
    Text { path: Seq<char>, title: Seq<char>, data: Seq<u8> },
    /// The page that holds the table of contents.
    Contents,
}

/// What an archive was handed so far, call by call.
pub uninterp spec fn archive_items(archive: Archive) -> Seq<ArchiveItem>;

/// The title that an archive was given.
pub uninterp spec fn archive_title(archive: Archive) -> Seq<char>;

/// The authors that an archive was given.
pub uninterp spec fn archive_authors(archive: Archive) -> Seq<Seq<char>>;

/// The longest path, in bytes, that an archive is handed. The encoder puts
/// its own directory before a path, and what writes the book out has
/// sixteen bits for the length of a name.
pub const PATH_LIMIT: usize = 0xFFF9;

/// Whether a path is short enough for an archive.
pub open spec fn fits(path: Seq<char>) -> bool {
    encode_utf8(path).len() <= PATH_LIMIT
}

/// Whether the encoder takes this cover image from an archive that was
/// handed `before`.
pub uninterp spec fn takes_cover(
    before: Seq<ArchiveItem>,
    path: Seq<char>,
    mime: Seq<char>,
    data: Seq<u8>,
) -> bool;

/// Whether the encoder takes this chapter from an archive that was handed
/// `before`.
pub uninterp spec fn takes_text(
    before: Seq<ArchiveItem>,
    path: Seq<char>,
    title: Seq<char>,
    data: Seq<u8>,
) -> bool;

/// Whether the encoder writes out an archive that was handed `items` and
/// given this title and these authors.
pub uninterp spec fn writes_out(
    items: Seq<ArchiveItem>,
    title: Seq<char>,
    authors: Seq<Seq<char>>,
) -> bool;

/// `epub_builder::ZipLibrary::new`: a writer of zip files in memory, with
/// the entry `mimetype` written. The call takes nothing and writes one
/// entry of a fixed name into an empty writer in memory, so it succeeds.
#[verifier::external_body]
fn new_zip() -> (res: Result<epub_builder::ZipLibrary, epub_builder::Error>)
    ensures
        res is Ok,
{
    epub_builder::ZipLibrary::new()
}

/// `epub_builder::EpubBuilder::new`: an archive that was handed nothing yet
/// and has neither title nor author. The call writes two entries of fixed
/// names and contents into the writer; a `ZipLibrary` can only be had from
/// `ZipLibrary::new` and cannot be written to from outside its crate, so
/// the writer holds `mimetype` and nothing else, and the call succeeds.
#[verifier::external_body]
fn new_builder(zip: epub_builder::ZipLibrary) -> (res: Result<Archive, epub_builder::Error>)
    ensures
        res is Ok,
        res matches Ok(archive) ==> archive_items(archive) == Seq::<ArchiveItem>::empty()
            && archive_title(archive) == Seq::<char>::empty() && archive_authors(archive)
            == Seq::<Seq<char>>::empty(),
{
    match epub_builder::EpubBuilder::new(zip) {
        Ok(builder) => Ok(Archive { builder }),
        Err(e) => Err(e),
    }
}

/// `epub_builder::EpubBuilder::metadata`: under the key `title` the value
/// becomes the title; under the key `author` a value that is not empty is
/// added to the authors, and an empty one clears them; both keys are known,
/// so the call succeeds. No key touches what the archive was handed, and no
/// other key touches title or authors.
#[verifier::external_body]
fn set_metadata(
    archive: &mut Archive,
    key: &str,
    value: &str,
) -> (res: Result<(), epub_builder::Error>)
    ensures
        archive_items(*final(archive)) == archive_items(*old(archive)),
        archive_title(*final(archive)) == if key@ == "title"@ {
            value@
        } else {
            archive_title(*old(archive))
        },
        archive_authors(*final(archive)) == if key@ != "author"@ {
            archive_authors(*old(archive))
        } else if value@.len() == 0 {
            Seq::<Seq<char>>::empty()
        } else {
            archive_authors(*old(archive)).push(value@)
        },
        key@ == "title"@ || key@ == "author"@ ==> res is Ok,
{
    match archive.builder.metadata(key, value) {
        Ok(_) => Ok(()),
        Err(e) => Err(e),
    }
}

/// `epub_builder::EpubBuilder::add_cover_image`: where it succeeds, the
/// image is the last thing that the archive was handed. Title and authors
/// stay. The image is written into memory, so whether the call succeeds is
/// a function of the image and of what the archive was handed before, named
/// `takes_cover`. A path of more than sixteen bits of length, the encoder's
/// directory counted in, stops the program and is left out.
#[verifier::external_body]
fn add_cover(
    archive: &mut Archive,
    path: &str,
    data: &[u8],
    mime: &str,
) -> (res: Result<(), epub_builder::Error>)
    requires
        fits(path@),
    ensures
        res is Ok <==> takes_cover(archive_items(*old(archive)), path@, mime@, data@),
        res is Ok ==> archive_items(*final(archive)) == archive_items(*old(archive)).push(
            ArchiveItem::Cover { path: path@, mime: mime@, data: data@ },
        ),
        archive_title(*final(archive)) == archive_title(*old(archive)),
        archive_authors(*final(archive)) == archive_authors(*old(archive)),
{
    match archive.builder.add_cover_image(path, data, mime) {
        Ok(_) => Ok(()),
        Err(e) => Err(e),
    }
}

/// `epub_builder::EpubContent::new`, `title` and `reftype`, and
/// `epub_builder::EpubBuilder::add_content`: where it succeeds, the chapter
/// is the last thing that the archive was handed. Title and authors stay.
/// The chapter is written into memory, so whether the call succeeds is a
/// function of the chapter and of what the archive was handed before, named
/// `takes_text`. A path of more than sixteen bits of length, the encoder's
/// directory counted in, stops the program and is left out.
#[verifier::external_body]
fn add_text(
    archive: &mut Archive,
    path: &str,
    title: &str,
    data: &[u8],
) -> (res: Result<(), epub_builder::Error>)
    requires
        fits(path@),
    ensures
        res is Ok <==> takes_text(archive_items(*old(archive)), path@, title@, data@),
        res is Ok ==> archive_items(*final(archive)) == archive_items(*old(archive)).push(
            ArchiveItem::Text { path: path@, title: title@, data: data@ },
        ),
        archive_title(*final(archive)) == archive_title(*old(archive)),
        archive_authors(*final(archive)) == archive_authors(*old(archive)),
{
    let content = epub_builder::EpubContent::new(path, data).title(title).reftype(
        epub_builder::ReferenceType::Text,
    );
    match archive.builder.add_content(content) {
        Ok(_) => Ok(()),
        Err(e) => Err(e),
    }
}

/// `epub_builder::EpubBuilder::inline_toc`: the page of the table of
/// contents is the last thing that the archive was handed. Title and
/// authors stay.
#[verifier::external_body]
fn add_contents(archive: &mut Archive)
    ensures
        archive_items(*final(archive)) == archive_items(*old(archive)).push(ArchiveItem::Contents),
        archive_title(*final(archive)) == archive_title(*old(archive)),
        archive_authors(*final(archive)) == archive_authors(*old(archive)),
{
    archive.builder.inline_toc();
}

/// `epub_builder::EpubBuilder::generate`: the bytes of the book. They
/// depend on the day and on chance, so nothing is claimed of them. Whether
/// there are any does not: the pages that the encoder adds are made of what
/// the archive holds, the day and the identifier take the same room
/// whatever they are, and all is written into memory. So whether the call
/// succeeds is a function of what the archive was handed and given, named
/// `writes_out`.
#[verifier::external_body]
fn generate(archive: Archive) -> (res: Result<Vec<u8>, epub_builder::Error>)
    ensures
        res is Ok <==> writes_out(
            archive_items(archive),
            archive_title(archive),
            archive_authors(archive),
        ),
{
    let mut bytes: Vec<u8> = Vec::new();
    match archive.builder.generate(&mut bytes) {
        Ok(()) => Ok(bytes),
        Err(e) => Err(e),
    }
}

/// `Display` of `epub_builder::Error`: the encoder's own words for its
/// failure. Nothing is claimed of them.
#[verifier::external_body]
fn describe(e: &epub_builder::Error) -> (text: String) {
    format!("{}", e)
}

fn refused(e: epub_builder::Error) -> (err: NovelError)
    ensures
        err@ is Encoder,
{
    NovelError::Encoder(describe(&e))
}

fn short_enough(path: &str) -> (b: bool)
    ensures
        b == fits(path@),
{
    path.as_bytes().len() <= PATH_LIMIT
}

fn too_long(path: &str) -> (err: NovelError)
    ensures
        err@ is Encoder,
{
    let mut words = String::from_str("The path is too long: ");
    words.append(path);
    NovelError::Encoder(words)
}

/// What a book is made from, all but the files.
pub struct ArchivePlan {
    /// The author of the novel.
    pub author: String,
    /// The title of the novel.
    pub title: String,
    /// The directory of the novel, where its files were stored.
    pub dir: String,
    /// The name of the cover image within the directory.
    pub cover_name: String,
    /// The media type of the cover image.
    pub cover_mime: String,
    /// The file that the book is written to.
    pub output: String,
}

/// An `ArchivePlan`, as contracts speak of it.
pub struct Plan {
    pub author: Seq<char>,
    pub title: Seq<char>,
    pub dir: Seq<char>,
    pub cover_name: Seq<char>,
    pub cover_mime: Seq<char>,
    pub output: Seq<char>,
}

impl View for ArchivePlan {
    type V = Plan;

    open spec fn view(&self) -> Plan {
        Plan {
            author: self.author@,
            title: self.title@,
            dir: self.dir@,
            cover_name: self.cover_name@,
            cover_mime: self.cover_mime@,
            output: self.output@,
        }
    }
}

/// What the archive is handed for the chapter in `file`: the file's path
/// under `dir`, the title that its name shows, and its bytes.
pub open spec fn text_item(dir: Seq<char>, file: StoredFile) -> ArchiveItem {
    ArchiveItem::Text {
        path: dir + "/"@ + file.name@,
        title: display_title(file.name@),
        data: encode_utf8(file.contents@),
    }
}

/// What the archive of a book is handed, call by call: the cover, the
/// chapters in the order in which they stand, the table of contents.
pub open spec fn book_items(plan: Plan, cover: Seq<u8>, chapters: Seq<StoredFile>) -> Seq<
    ArchiveItem,
> {
    seq![ArchiveItem::Cover { path: plan.cover_name, mime: plan.cover_mime, data: cover }]
        + Seq::new(chapters.len(), |i: int| text_item(plan.dir, chapters[i])) + seq![
        ArchiveItem::Contents,
    ]
}

/// The authors of a book whose one author is `author`: none where the name
/// is empty.
pub open spec fn book_authors(author: Seq<char>) -> Seq<Seq<char>> {
    if author.len() == 0 {
        Seq::empty()
    } else {
        seq![author]
    }
}

/// Whether an archive that was handed `before` takes `item`: its path is
/// short enough, and the encoder does not refuse it.
pub open spec fn is_taken(before: Seq<ArchiveItem>, item: ArchiveItem) -> bool {
    match item {
        ArchiveItem::Cover { path, mime, data } => fits(path) && takes_cover(
            before,
            path,
            mime,
            data,
        ),
        ArchiveItem::Text { path, title, data } => fits(path) && takes_text(
            before,
            path,
            title,
            data,
        ),
        ArchiveItem::Contents => true,
    }
}

/// Whether a new archive takes the `items`, one after the other.
pub open spec fn all_taken(items: Seq<ArchiveItem>) -> bool {
    forall|i: int| 0 <= i < items.len() ==> is_taken(#[trigger] items.take(i), items[i])
}

/// Whether `archive` holds the book of these chapters: author and title,
/// the cover, the chapters in the order in which they stand, and the table
/// of contents after them.
pub open spec fn is_book(archive: Archive, plan: Plan, cover: Seq<u8>, chapters: Seq<StoredFile>) -> bool {
    &&& archive_title(archive) == plan.title
    &&& archive_authors(archive) == book_authors(plan.author)
    &&& archive_items(archive) == book_items(plan, cover, chapters)
}

/// Whether `res` is what becomes of the book of these chapters: an archive
/// that holds it where a new archive takes all of it, one thing after the
/// other, and a failure where it does not.
pub open spec fn is_assembled(
    res: Result<Archive, NovelError>,
    plan: Plan,
    cover: Seq<u8>,
    chapters: Seq<StoredFile>,
) -> bool {
    match res {
        Ok(archive) => all_taken(book_items(plan, cover, chapters)) && is_book(
            archive,
            plan,
            cover,
            chapters,
        ),
        Err(e) => !all_taken(book_items(plan, cover, chapters)) && e@ is Encoder,
    }
}

/// Whether `chapters` are the files of `files` that hold chapters, each of
/// them once, in the order of their names.
pub open spec fn is_order_of(chapters: Seq<StoredFile>, files: Seq<StoredFile>) -> bool {
    is_ordered(chapters) && chapters.to_multiset() == chapters_among(files).to_multiset()
}

/// Whether `archive` holds the book that is made of `files`: author and
/// title, the cover, then the files that hold chapters, each of them once,
/// in the order of their names, then the table of contents, all of which
/// the encoder has taken.
pub open spec fn holds_book(archive: Archive, plan: Plan, cover: Seq<u8>, files: Seq<StoredFile>) -> bool {
    exists|chapters: Seq<StoredFile>|
        #[trigger] is_order_of(chapters, files) && all_taken(book_items(plan, cover, chapters))
            && is_book(archive, plan, cover, chapters)
}

/// Fills a new archive with a book: author and title, the cover, the
/// chapters in the order in which they stand, and the table of contents
/// after them. Succeeds exactly where a new archive takes the cover and
/// every chapter after those before it.
pub fn assemble(plan: &ArchivePlan, cover: &Vec<u8>, chapters: &Vec<StoredFile>) -> (res: Result<
    Archive,
    NovelError,
>)
    ensures
        is_assembled(res, plan@, cover@, chapters@),
        res is Ok <==> all_taken(book_items(plan@, cover@, chapters@)),
{
    let ghost book = book_items(plan@, cover@, chapters@);
    let zip = match new_zip() {
        Ok(zip) => zip,
        Err(e) => {
            return Err(refused(e));
        },
    };
    let mut archive = match new_builder(zip) {
        Ok(archive) => archive,
        Err(e) => {
            return Err(refused(e));
        },
    };
    match set_metadata(&mut archive, "author", plan.author.as_str()) {
        Ok(()) => {},
        Err(e) => {
            return Err(refused(e));
        },
    }
    match set_metadata(&mut archive, "title", plan.title.as_str()) {
        Ok(()) => {},
        Err(e) => {
            return Err(refused(e));
        },
    }
    proof {
        reveal_strlit("author");
        reveal_strlit("title");
        assert("author"@ != "title"@) by {
            assert("author"@.len() != "title"@.len());
        }
        assert(book.take(0) =~= Seq::<ArchiveItem>::empty());
        assert(book[0] == (ArchiveItem::Cover {
            path: plan@.cover_name,
            mime: plan@.cover_mime,
            data: cover@,
        }));
    }
    if !short_enough(plan.cover_name.as_str()) {
        assert(!is_taken(book.take(0), book[0]));
        return Err(too_long(plan.cover_name.as_str()));
    }
    match add_cover(
        &mut archive,
        plan.cover_name.as_str(),
        cover.as_slice(),
        plan.cover_mime.as_str(),
    ) {
        Ok(()) => {},
        Err(e) => {
            assert(!is_taken(book.take(0), book[0]));
            return Err(refused(e));
        },
    }
    assert(archive_items(archive) =~= book.take(1));
    let mut i: usize = 0;
    while i < chapters.len()
        invariant
            i <= chapters.len(),
            book == book_items(plan@, cover@, chapters@),
            archive_title(archive) == plan@.title,
            archive_authors(archive) == book_authors(plan@.author),
            archive_items(archive) == book.take(i + 1),
            forall|k: int| 0 <= k < i + 1 ==> is_taken(#[trigger] book.take(k), book[k]),
        decreases chapters.len() - i,
    {
        let file = &chapters[i];
        let mut path = plan.dir.clone();
        path.append("/");
        path.append(file.name.as_str());
        let title = chapter_name(file.name.as_str());
        proof {
            assert(book[i + 1] == text_item(plan@.dir, chapters@[i as int]));
            assert(book.take(i + 2) =~= book.take(i + 1).push(book[i + 1]));
        }
        if !short_enough(path.as_str()) {
            assert(!is_taken(book.take(i + 1), book[i + 1]));
            return Err(too_long(path.as_str()));
        }
        match add_text(&mut archive, path.as_str(), title.as_str(), file.contents.as_str().as_bytes()) {
            Ok(()) => {},
            Err(e) => {
                assert(!is_taken(book.take(i + 1), book[i + 1]));
                return Err(refused(e));
            },
        }
        i += 1;
    }
    add_contents(&mut archive);
    proof {
        assert(book[chapters.len() + 1] == ArchiveItem::Contents);
        assert(archive_items(archive) =~= book);
        assert forall|k: int| 0 <= k < book.len() implies is_taken(
            #[trigger] book.take(k),
            book[k],
        ) by {
            if k == chapters.len() + 1 {
                assert(book[k] == ArchiveItem::Contents);
            }
        }
    }
    Ok(archive)
}

/// Fills a new archive with the book that is made of `files`, of which those
/// that hold chapters are taken in the order of their names. Succeeds
/// exactly where a new archive takes the cover and every chapter after
/// those before it.
pub fn bind(plan: &ArchivePlan, cover: &Vec<u8>, files: Vec<StoredFile>) -> (res: Result<
    Archive,
    NovelError,
>)
    ensures
        exists|chapters: Seq<StoredFile>|
            #[trigger] is_order_of(chapters, files@) && is_assembled(
                res,
                plan@,
                cover@,
                chapters,
            ),
        res matches Ok(archive) ==> holds_book(archive, plan@, cover@, files@),
        res matches Err(e) ==> e@ is Encoder,
{
    let chapters = order_chapters(files);
    let res = assemble(plan, cover, &chapters);
    assert(is_order_of(chapters@, files@));
    res
}

/// What the encoder's answer means for the book: its bytes are the book,
/// and its failure is told in its own words.
pub fn book_from(written: Result<Vec<u8>, epub_builder::Error>) -> (res: Result<Vec<u8>, NovelError>)
    ensures
        match written {
            Ok(bytes) => res == Ok::<Vec<u8>, NovelError>(bytes),
            Err(_) => res matches Err(e) && e@ is Encoder,
        },
{
    match written {
        Ok(bytes) => Ok(bytes),
        Err(e) => Err(refused(e)),
    }
}

/// Whether the encoder makes the book of these chapters: a new archive
/// takes all of it, one thing after the other, and the encoder writes out
/// the archive that holds it.
pub open spec fn is_made(plan: Plan, cover: Seq<u8>, chapters: Seq<StoredFile>) -> bool {
    all_taken(book_items(plan, cover, chapters)) && writes_out(
        book_items(plan, cover, chapters),
        plan.title,
        book_authors(plan.author),
    )
}

/// Whether the book of `files` was made or not as the encoder decides: the
/// files that hold chapters, each of them once, stand in some order of
/// their names, and there is a book exactly where the encoder makes the
/// book of the chapters in that order.
pub open spec fn is_built(made: bool, plan: Plan, cover: Seq<u8>, files: Seq<StoredFile>) -> bool {
    exists|chapters: Seq<StoredFile>|
        #[trigger] is_order_of(chapters, files) && (made <==> is_made(plan, cover, chapters))
}

/// Makes the book: the archive is filled as `bind` says, and its bytes are
/// written out. Succeeds exactly where the encoder makes the book of the
/// files that hold chapters, in the order of their names. Where it
/// succeeds, there was an archive that holds that book, and the bytes are
/// what the encoder wrote of it.
pub fn build_epub(plan: &ArchivePlan, cover: &Vec<u8>, files: Vec<StoredFile>) -> (res: Result<
    Vec<u8>,
    NovelError,
>)
    ensures
        is_built(res is Ok, plan@, cover@, files@),
        res is Ok ==> exists|archive: Archive| holds_book(archive, plan@, cover@, files@),
        res matches Err(e) ==> e@ is Encoder,
{
    let bound = bind(plan, cover, files);
    let ghost chapters = choose|chapters: Seq<StoredFile>|
        #[trigger] is_order_of(chapters, files@) && is_assembled(bound, plan@, cover@, chapters);
    let archive = match bound {
        Ok(archive) => archive,
        Err(e) => {
            assert(!is_made(plan@, cover@, chapters));
            return Err(e);
        },
    };
    assert(holds_book(archive, plan@, cover@, files@));
    let res = book_from(generate(archive));
    assert(res is Ok <==> is_made(plan@, cover@, chapters));
    res
}

} // verus!
