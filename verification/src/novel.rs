//! A novel in the making: the cover page, the chapter that is being read,
//! how many chapters were read, and where each of them is to be stored.

use vstd::prelude::*;
use vstd::string::StringExecFns;
use crate::archive::{build_epub, holds_book, is_built, Archive, ArchivePlan, Plan};
use crate::error::{outcome, Failure, NovelError};
use crate::naming::{chapter_file_name, name_chapter_file};
use crate::order::StoredFile;
use crate::page::{
    chapter_document, chapter_title, cover_author, cover_image_kind, cover_image_url, cover_title,
    first_chapter_link, next_chapter_link, text_of, ChapterPage, CoverPage,
};
use crate::url::{host, host_of, image_kind, image_kind_of};

verus! {

/// How far the reading of a novel has come.
pub enum Stage {
    /// No chapter was asked for yet.
    NotStarted,
    /// The chapter whose page this is was read last.
    Reading(Seq<char>),
    /// There is no further chapter.
    Finished,
}

/// A novel in the making, as contracts speak of it.
pub struct Session {
    /// The directory under which the novel is stored.
    pub workdir: Seq<char>,
    /// The host that the novel's address starts with.
    pub host: Seq<char>,
    /// The text of the cover page.
    pub cover: Seq<char>,
    /// How far the reading has come.
    pub stage: Stage,
    /// How many chapters were read: the number of the one read last.
    pub chapters: nat,
}

enum Progress {
    NotStarted,
    Reading(ChapterPage),
    Finished,
}

/// A novel in the making. It holds the one chapter that was read last and
/// none before it: what was read is on disk.
pub struct Novel {
    workdir: String,
    host_url: String,
    cover: CoverPage,
    progress: Progress,
    chapter_id: u64,
}

impl View for Novel {
    type V = Session;

    closed spec fn view(&self) -> Session {
        Session {
            workdir: self.workdir@,
            host: self.host_url@,
            cover: self.cover@,
            stage: match self.progress {
                Progress::NotStarted => Stage::NotStarted,
                Progress::Reading(page) => Stage::Reading(page@),
                Progress::Finished => Stage::Finished,
            },
            chapters: self.chapter_id as nat,
        }
    }
}

/// Whether the number of chapters fits the stage: none before the start,
/// one at least while a chapter is held.
pub open spec fn is_counted(s: Session) -> bool {
    &&& s.stage is NotStarted ==> s.chapters == 0
    &&& s.stage is Reading ==> s.chapters >= 1
}

/// The address to fetch next: the host and the link that the cover page, or
/// the chapter read last, gives. `None` where it gives none, and after the
/// end.
pub open spec fn next_address(s: Session) -> Option<Seq<char>> {
    match s.stage {
        Stage::NotStarted => match first_chapter_link(s.cover) {
            Ok(link) => Some(s.host + link),
            Err(_) => None,
        },
        Stage::Reading(page) => match next_chapter_link(page) {
            Ok(link) => Some(s.host + link),
            Err(_) => None,
        },
        Stage::Finished => None,
    }
}

/// Whether a page that was fetched becomes the next chapter: there was an
/// address to fetch, and the number of chapters can still grow.
pub open spec fn can_advance(s: Session) -> bool {
    next_address(s) is Some && s.chapters < u64::MAX
}

/// The novel after the fetch of its next address ended with `fetched`: the
/// page, or `None` where none was had.
pub open spec fn advanced(s: Session, fetched: Option<Seq<char>>) -> Session {
    match fetched {
        Some(page) => if can_advance(s) {
            Session { stage: Stage::Reading(page), chapters: s.chapters + 1, ..s }
        } else {
            Session { stage: Stage::Finished, ..s }
        },
        None => Session { stage: Stage::Finished, ..s },
    }
}

/// Reading goes forward only: the number of chapters grows by one with each
/// chapter and stays otherwise, it fits the stage, and after the end there
/// is no way back.
pub proof fn lemma_advanced(s: Session, fetched: Option<Seq<char>>)
    ensures
        is_counted(s) ==> is_counted(advanced(s, fetched)),
        advanced(s, fetched).stage is Reading ==> advanced(s, fetched).chapters == s.chapters + 1,
        !(advanced(s, fetched).stage is Reading) ==> advanced(s, fetched).stage is Finished
            && advanced(s, fetched).chapters == s.chapters,
        s.stage is Finished ==> advanced(s, fetched).stage is Finished,
        advanced(s, fetched).workdir == s.workdir && advanced(s, fetched).host == s.host
            && advanced(s, fetched).cover == s.cover,
{
}

/// Whether the server's answer is to be taken: only the status 200 is.
pub fn check_status(code: u16) -> (res: Result<(), NovelError>)
    ensures
        code == 200 ==> res is Ok,
        code != 200 ==> (res matches Err(e) && e@ == Failure::HttpStatus(code)),
{
    if code == 200 {
        Ok(())
    } else {
        Err(NovelError::HttpStatus(code))
    }
}

/// Where the cover image is fetched from and stored.
pub struct CoverFile {
    /// The directory of the novel.
    pub dir: String,
    /// The file of the image.
    pub path: String,
    /// The address of the image.
    pub url: String,
}

/// A `CoverFile`, as contracts speak of it.
pub struct CoverPlace {
    pub dir: Seq<char>,
    pub path: Seq<char>,
    pub url: Seq<char>,
}

impl View for CoverFile {
    type V = CoverPlace;

    open spec fn view(&self) -> CoverPlace {
        CoverPlace { dir: self.dir@, path: self.path@, url: self.url@ }
    }
}

/// Where a chapter is stored, and as what.
pub struct ChapterFile {
    /// The directory of the novel.
    pub dir: String,
    /// The file of the chapter.
    pub path: String,
    /// What the file holds.
    pub document: String,
}

/// A `ChapterFile`, as contracts speak of it.
pub struct ChapterPlace {
    pub dir: Seq<char>,
    pub path: Seq<char>,
    pub document: Seq<char>,
}

impl View for ChapterFile {
    type V = ChapterPlace;

    open spec fn view(&self) -> ChapterPlace {
        ChapterPlace { dir: self.dir@, path: self.path@, document: self.document@ }
    }
}

/// The directory of the novel with the title `title`.
pub open spec fn directory_of(workdir: Seq<char>, title: Seq<char>) -> Seq<char> {
    workdir + "/"@ + title
}

/// Where the cover image of the novel is fetched from and stored: in the
/// novel's directory, under the novel's title and the image's kind.
pub open spec fn cover_place(s: Session) -> Result<CoverPlace, Failure> {
    match cover_title(s.cover) {
        Err(e) => Err(e),
        Ok(title) => match cover_image_url(s.cover) {
            Err(e) => Err(e),
            Ok(url) => match image_kind_of(url) {
                Err(e) => Err(e),
                Ok(kind) => Ok(
                    CoverPlace {
                        dir: directory_of(s.workdir, title),
                        path: directory_of(s.workdir, title) + "/"@ + title + "."@ + kind,
                        url,
                    },
                ),
            },
        },
    }
}

/// Where the chapter read last is stored, and as what: in the novel's
/// directory, under its number and its title. Fails with `EmptyField` where
/// no chapter is held.
pub open spec fn chapter_place(s: Session) -> Result<ChapterPlace, Failure> {
    match cover_title(s.cover) {
        Err(e) => Err(e),
        Ok(title) => match s.stage {
            Stage::Reading(page) => match chapter_document(page) {
                Err(e) => Err(e),
                Ok(document) => match chapter_title(page) {
                    Err(e) => Err(e),
                    Ok(heading) => Ok(
                        ChapterPlace {
                            dir: directory_of(s.workdir, title),
                            path: directory_of(s.workdir, title) + "/"@ + chapter_file_name(
                                s.chapters,
                                heading,
                            ),
                            document,
                        },
                    ),
                },
            },
            _ => Err(Failure::EmptyField),
        },
    }
}

/// What the book of the novel is made from, all but the files: author and
/// title, the novel's directory, the cover image in it, named by the title
/// and the image's kind, and the file of the book, beside the directory.
pub open spec fn plan_of(s: Session) -> Result<Plan, Failure> {
    match cover_author(s.cover) {
        Err(e) => Err(e),
        Ok(author) => match cover_title(s.cover) {
            Err(e) => Err(e),
            Ok(title) => match cover_image_kind(s.cover) {
                Err(e) => Err(e),
                Ok(kind) => Ok(
                    Plan {
                        author,
                        title,
                        dir: directory_of(s.workdir, title),
                        cover_name: title + "."@ + kind,
                        cover_mime: "image/"@ + kind,
                        output: s.workdir + "/"@ + title + ".epub"@,
                    },
                ),
            },
        },
    }
}

/// A book, and the file that it is written to.
pub struct Book {
    /// The file of the book.
    pub path: String,
    /// The bytes of the book.
    pub bytes: Vec<u8>,
}

/// The files of a novel on disk, as far as the rules care: which paths there
/// are, and what each holds.
pub open spec fn stored(files: Map<Seq<char>, Seq<char>>, chapter: ChapterPlace) -> Map<
    Seq<char>,
    Seq<char>,
> {
    files.insert(chapter.path, chapter.document)
}

/// A chapter stored twice is stored once: it has one place, fixed by the
/// novel's directory, its number and its title, so the second time the same
/// file is written over, and no file is added.
pub proof fn lemma_stored_twice(files: Map<Seq<char>, Seq<char>>, s: Session)
    requires
        chapter_place(s) is Ok,
    ensures
        stored(stored(files, chapter_place(s)->Ok_0), chapter_place(s)->Ok_0) == stored(
            files,
            chapter_place(s)->Ok_0,
        ),
        stored(stored(files, chapter_place(s)->Ok_0), chapter_place(s)->Ok_0).dom() == stored(
            files,
            chapter_place(s)->Ok_0,
        ).dom(),
        (s.stage matches Stage::Reading(page) && chapter_place(s)->Ok_0.path == directory_of(
            s.workdir,
            cover_title(s.cover)->Ok_0,
        ) + "/"@ + chapter_file_name(s.chapters, chapter_title(page)->Ok_0)),
{
    let place = chapter_place(s)->Ok_0;
    assert(stored(stored(files, place), place) =~= stored(files, place));
}

fn join_directory(workdir: &str, title: &str) -> (dir: String)
    ensures
        dir@ == directory_of(workdir@, title@),
{
    let mut dir = String::from_str(workdir);
    dir.append("/");
    dir.append(title);
    dir
}

impl Novel {
    /// A novel at its start, from its address, the directory to store it
    /// under and the text of its cover page. Fails with `InvalidUrl` where
    /// the address starts with no host.
    pub fn new(title_url: &str, workdir: &str, cover_page: String) -> (res: Result<
        Novel,
        NovelError,
    >)
        ensures
            match res {
                Ok(novel) => host_of(title_url@) == Ok::<Seq<char>, Failure>(novel@.host)
                    && novel@.workdir == workdir@ && novel@.cover == cover_page@
                    && novel@.stage is NotStarted && novel@.chapters == 0 && is_counted(novel@),
                Err(e) => host_of(title_url@) is Err && e@ == Failure::InvalidUrl,
            },
    {
        match host(title_url) {
            Ok(host_url) => Ok(
                Novel {
                    workdir: String::from_str(workdir),
                    host_url,
                    cover: CoverPage::new(cover_page),
                    progress: Progress::NotStarted,
                    chapter_id: 0,
                },
            ),
            Err(_) => Err(NovelError::InvalidUrl),
        }
    }

    /// The cover page.
    pub fn cover(&self) -> (cover: &CoverPage)
        ensures
            cover@ == self@.cover,
    {
        &self.cover
    }

    /// The chapter that was read last, if one is held.
    pub fn chapter(&self) -> (chapter: Option<&ChapterPage>)
        ensures
            match self@.stage {
                Stage::Reading(page) => (chapter matches Some(held) && held@ == page),
                _ => chapter is None,
            },
    {
        match &self.progress {
            Progress::Reading(page) => Some(page),
            _ => None,
        }
    }

    /// The number of the chapter that was read last: how many were read.
    pub fn chapter_id(&self) -> (number: u64)
        ensures
            number == self@.chapters,
    {
        self.chapter_id
    }

    /// The address to fetch next, if there is one.
    pub fn next_url(&self) -> (url: Option<String>)
        ensures
            match url {
                Some(address) => next_address(self@) == Some(address@),
                None => next_address(self@) is None,
            },
    {
        let link = match &self.progress {
            Progress::NotStarted => self.cover.chapter_first_url(),
            Progress::Reading(page) => page.chapter_next_url(),
            Progress::Finished => {
                return None;
            },
        };
        match link {
            Ok(link) => {
                let mut url = self.host_url.clone();
                url.append(link.as_str());
                Some(url)
            },
            Err(_) => None,
        }
    }

    /// Goes on to the next chapter with what the fetch of `next_url` gave:
    /// the page, or `None` where none was had. Says whether a chapter is
    /// held after it; where none is, the novel has ended.
    pub fn next(&mut self, fetched: Option<String>) -> (more: bool)
        ensures
            final(self)@ == advanced(old(self)@, text_of(fetched)),
            more == (final(self)@.stage is Reading),
            is_counted(old(self)@) ==> is_counted(final(self)@),
    {
        let wanted = self.next_url();
        if wanted.is_some() && self.chapter_id < u64::MAX {
            if let Some(page) = fetched {
                self.progress = Progress::Reading(ChapterPage::new(page));
                self.chapter_id = self.chapter_id + 1;
                return true;
            }
        }
        self.progress = Progress::Finished;
        false
    }

    /// Where the cover image is fetched from and stored.
    pub fn cover_img_save(&self) -> (res: Result<CoverFile, NovelError>)
        ensures
            outcome(res) == cover_place(self@),
    {
        let title = match self.cover.title() {
            Ok(title) => title,
            Err(e) => {
                return Err(e);
            },
        };
        let url = match self.cover.cover_img_url() {
            Ok(url) => url,
            Err(e) => {
                return Err(e);
            },
        };
        let kind = match image_kind(url.as_str()) {
            Ok(kind) => kind,
            Err(e) => {
                return Err(e);
            },
        };
        let dir = join_directory(self.workdir.as_str(), title.as_str());
        let mut path = dir.clone();
        path.append("/");
        path.append(title.as_str());
        path.append(".");
        path.append(kind.as_str());
        Ok(CoverFile { dir, path, url })
    }

    /// What the book of the novel is made from, all but the files.
    pub fn archive_plan(&self) -> (res: Result<ArchivePlan, NovelError>)
        ensures
            outcome(res) == plan_of(self@),
    {
        let author = match self.cover.author() {
            Ok(author) => author,
            Err(e) => {
                return Err(e);
            },
        };
        let title = match self.cover.title() {
            Ok(title) => title,
            Err(e) => {
                return Err(e);
            },
        };
        let kind = match self.cover.cover_img_type() {
            Ok(kind) => kind,
            Err(e) => {
                return Err(e);
            },
        };
        let dir = join_directory(self.workdir.as_str(), title.as_str());
        let mut cover_name = title.clone();
        cover_name.append(".");
        cover_name.append(kind.as_str());
        let mut cover_mime = String::from_str("image/");
        cover_mime.append(kind.as_str());
        let mut output = String::from_str(self.workdir.as_str());
        output.append("/");
        output.append(title.as_str());
        output.append(".epub");
        Ok(ArchivePlan { author, title, dir, cover_name, cover_mime, output })
    }

    /// Makes the book of the novel from the bytes of its cover image and the
    /// files of its directory, of which those that hold chapters are taken
    /// in the order of their names. Where it succeeds, there was an archive
    /// that holds that book, and the bytes are what the encoder wrote of it.
    /// Fails as `archive_plan` does; where the plan is made, it succeeds
    /// exactly where the encoder makes the book.
    pub fn build_epub(&self, cover: &Vec<u8>, files: Vec<StoredFile>) -> (res: Result<
        Book,
        NovelError,
    >)
        ensures
            plan_of(self@) matches Ok(plan) ==> is_built(res is Ok, plan, cover@, files@),
            match res {
                Ok(book) => plan_of(self@) matches Ok(plan) && book.path@ == plan.output
                    && exists|archive: Archive| holds_book(archive, plan, cover@, files@),
                Err(e) => match plan_of(self@) {
                    Ok(_) => e@ is Encoder,
                    Err(failure) => e@ == failure,
                },
            },
    {
        let plan = match self.archive_plan() {
            Ok(plan) => plan,
            Err(e) => {
                return Err(e);
            },
        };
        match build_epub(&plan, cover, files) {
            Ok(bytes) => Ok(Book { path: plan.output, bytes }),
            Err(e) => Err(e),
        }
    }

    /// Where the chapter read last is stored, and as what. Fails with
    /// `EmptyField` where no chapter is held.
    pub fn chapter_save(&self) -> (res: Result<ChapterFile, NovelError>)
        ensures
            outcome(res) == chapter_place(self@),
    {
        let title = match self.cover.title() {
            Ok(title) => title,
            Err(e) => {
                return Err(e);
            },
        };
        let page = match &self.progress {
            Progress::Reading(page) => page,
            _ => {
                return Err(NovelError::EmptyField);
            },
        };
        let document = match page.compose_xhtml() {
            Ok(document) => document,
            Err(e) => {
                return Err(e);
            },
        };
        let heading = match page.title() {
            Ok(heading) => heading,
            Err(e) => {
                return Err(e);
            },
        };
        let dir = join_directory(self.workdir.as_str(), title.as_str());
        let name = name_chapter_file(self.chapter_id, heading.as_str());
        let mut path = dir.clone();
        path.append("/");
        path.append(name.as_str());
        Ok(ChapterFile { dir, path, document })
    }
}

} // verus!
