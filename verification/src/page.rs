//! Pages: what the cover page of a novel and the page of a chapter say,
//! each field found by a selector path in the parsed document.

use vstd::prelude::*;
use vstd::string::StringExecFns;
use vstd::utf8::encode_utf8;
use crate::error::{outcome, Failure, NovelError};
use crate::markup::{compose_document, document_of, first_block, remove_ad, without_blocks};
use crate::text::{trim_text, trimmed};
use crate::title::{is_clean, is_spaced, normalize, title_of};
use crate::url::{image_kind, image_kind_of};

verus! {

/// Where the title stands on a cover page.
pub const COVER_TITLE: &'static str = "h1.novel-title";

/// Where the author stands on a cover page.
pub const AUTHOR: &'static str = "div.author > a > span";

/// Where the cover image stands on a cover page.
pub const COVER_IMAGE: &'static str = "div.fixed-img > figure > img";

/// The attribute of the cover image that holds its address.
pub const IMAGE_SOURCE: &'static str = "data-src";

/// Where the link to the first chapter stands on a cover page.
pub const FIRST_CHAPTER: &'static str = "#readchapterbtn";

/// Where the title stands on a chapter's page.
pub const CHAPTER_TITLE: &'static str = "span.chapter-title";

/// Where the body stands on a chapter's page.
pub const CHAPTER_BODY: &'static str = "div.chapter-content";

/// Where the link to the next chapter stands on a chapter's page.
pub const NEXT_CHAPTER: &'static str = "a.button.nextchap";

/// The attribute of a link that holds its address.
pub const LINK_TARGET: &'static str = "href";

/// The longest page, in bytes, that is read. The parser keeps each text of a
/// page in a buffer that cannot grow past two to the power of 31 bytes, and
/// no character of a page becomes more than three times as long in it, so a
/// page of a third of that is safe, and a longer one is not read.
pub const PAGE_LIMIT: usize = 0x2AAA_AAAA;

/// Whether a page is short enough to be read.
pub open spec fn is_readable(document: Seq<char>) -> bool {
    encode_utf8(document).len() <= PAGE_LIMIT
}

/// The text within the first element of `document` that the selector `path`
/// matches: what its text nodes hold, one after the other. `None` where no
/// element matches, or where `path` is no selector.
pub uninterp spec fn selected_text(document: Seq<char>, path: Seq<char>) -> Option<Seq<char>>;

/// The markup within the first element of `document` that the selector
/// `path` matches. `None` where no element matches, or where `path` is no
/// selector.
pub uninterp spec fn selected_markup(document: Seq<char>, path: Seq<char>) -> Option<Seq<char>>;

/// The value of the attribute `name` of the first element of `document` that
/// the selector `path` matches. `None` where no element matches, or where
/// `path` is no selector; `Some(None)` where the element has no such
/// attribute.
pub uninterp spec fn selected_attribute(
    document: Seq<char>,
    path: Seq<char>,
    name: Seq<char>,
) -> Option<Option<Seq<char>>>;

/// What a text that was looked for holds, if it was found.
pub open spec fn text_of(found: Option<String>) -> Option<Seq<char>> {
    match found {
        Some(text) => Some(text@),
        None => None,
    }
}

/// What an attribute that was looked for holds, if its element was found and
/// has it.
pub open spec fn value_of(found: Option<Option<String>>) -> Option<Option<Seq<char>>> {
    match found {
        Some(value) => Some(text_of(value)),
        None => None,
    }
}

/// `scraper::Html::parse_document`, `scraper::Selector::parse`,
/// `Html::select` and `ElementRef::text`: parses `document`, takes the first
/// element that `path` selects and joins its text nodes. The result is a
/// function of the two texts, named `selected_text`. The parser stops the
/// program on a page whose texts outgrow its buffers; such a page is left
/// out.
#[verifier::external_body]
fn select_text(document: &str, path: &str) -> (found: Option<String>)
    requires
        is_readable(document@),
    ensures
        text_of(found) == selected_text(document@, path@),
{
    let selector = match scraper::Selector::parse(path) {
        Ok(selector) => selector,
        Err(_) => return None,
    };
    let page = scraper::Html::parse_document(document);
    match page.select(&selector).next() {
        Some(element) => Some(element.text().collect()),
        None => None,
    }
}

/// `scraper::Html::parse_document`, `scraper::Selector::parse`,
/// `Html::select` and `ElementRef::inner_html`: parses `document`, takes the
/// first element that `path` selects and writes out what it holds. The result
/// is a function of the two texts, named `selected_markup`. The parser stops
/// the program on a page whose texts outgrow its buffers; such a page is left
/// out.
#[verifier::external_body]
fn select_markup(document: &str, path: &str) -> (found: Option<String>)
    requires
        is_readable(document@),
    ensures
        text_of(found) == selected_markup(document@, path@),
{
    let selector = match scraper::Selector::parse(path) {
        Ok(selector) => selector,
        Err(_) => return None,
    };
    let page = scraper::Html::parse_document(document);
    match page.select(&selector).next() {
        Some(element) => Some(element.inner_html()),
        None => None,
    }
}

/// `scraper::Html::parse_document`, `scraper::Selector::parse`,
/// `Html::select` and `Element::attr`: parses `document`, takes the first
/// element that `path` selects and reads its attribute `name`. The result is
/// a function of the three texts, named `selected_attribute`. The parser
/// stops the program on a page whose texts outgrow its buffers; such a page
/// is left out.
#[verifier::external_body]
fn select_attribute(document: &str, path: &str, name: &str) -> (found: Option<Option<String>>)
    requires
        is_readable(document@),
    ensures
        value_of(found) == selected_attribute(document@, path@, name@),
{
    let selector = match scraper::Selector::parse(path) {
        Ok(selector) => selector,
        Err(_) => return None,
    };
    let page = scraper::Html::parse_document(document);
    match page.select(&selector).next() {
        Some(element) => Some(element.value().attr(name).map(String::from)),
        None => None,
    }
}

/// The text that is found in `document` at `path`. In a page that is too
/// long to be read nothing is found.
pub open spec fn text_in(document: Seq<char>, path: Seq<char>) -> Option<Seq<char>> {
    if is_readable(document) {
        selected_text(document, path)
    } else {
        None
    }
}

/// The markup that is found in `document` at `path`. In a page that is too
/// long to be read nothing is found.
pub open spec fn markup_in(document: Seq<char>, path: Seq<char>) -> Option<Seq<char>> {
    if is_readable(document) {
        selected_markup(document, path)
    } else {
        None
    }
}

/// The value of the attribute `name` that is found in `document` at `path`.
/// In a page that is too long to be read no element is found.
pub open spec fn attribute_in(document: Seq<char>, path: Seq<char>, name: Seq<char>) -> Option<
    Option<Seq<char>>,
> {
    if is_readable(document) {
        selected_attribute(document, path, name)
    } else {
        None
    }
}

fn readable(document: &str) -> (b: bool)
    ensures
        b == is_readable(document@),
{
    document.as_bytes().len() <= PAGE_LIMIT
}

fn find_text(document: &str, path: &str) -> (found: Option<String>)
    ensures
        text_of(found) == text_in(document@, path@),
{
    if readable(document) {
        select_text(document, path)
    } else {
        None
    }
}

fn find_markup(document: &str, path: &str) -> (found: Option<String>)
    ensures
        text_of(found) == markup_in(document@, path@),
{
    if readable(document) {
        select_markup(document, path)
    } else {
        None
    }
}

fn find_attribute(document: &str, path: &str, name: &str) -> (found: Option<Option<String>>)
    ensures
        value_of(found) == attribute_in(document@, path@, name@),
{
    if readable(document) {
        select_attribute(document, path, name)
    } else {
        None
    }
}

/// The title that the text found at `path` gives.
pub open spec fn found_title(found: Option<Seq<char>>, path: Seq<char>) -> Result<
    Seq<char>,
    Failure,
> {
    match found {
        Some(raw) => title_of(raw),
        None => Err(Failure::SelectorNotFound(path)),
    }
}

/// The text found at `path`, trimmed.
pub open spec fn found_text(found: Option<Seq<char>>, path: Seq<char>) -> Result<
    Seq<char>,
    Failure,
> {
    match found {
        Some(raw) => Ok(trimmed(raw)),
        None => Err(Failure::SelectorNotFound(path)),
    }
}

/// The body that the markup found at `path` gives: trimmed, and without its
/// blocks.
pub open spec fn found_body(found: Option<Seq<char>>, path: Seq<char>) -> Result<
    Seq<char>,
    Failure,
> {
    match found {
        Some(raw) => Ok(without_blocks(trimmed(raw))),
        None => Err(Failure::SelectorNotFound(path)),
    }
}

/// The value of the attribute `name` of the element found at `path`.
pub open spec fn found_value(
    found: Option<Option<Seq<char>>>,
    path: Seq<char>,
    name: Seq<char>,
) -> Result<Seq<char>, Failure> {
    match found {
        Some(Some(value)) => Ok(value),
        Some(None) => Err(Failure::AttributeNotFound(name)),
        None => Err(Failure::SelectorNotFound(path)),
    }
}

/// Makes a title of the text that was found at `path`. Fails with
/// `SelectorNotFound` where none was found, and with `EmptyField` where the
/// title comes out empty.
pub fn title_from(found: Option<String>, path: &str) -> (res: Result<String, NovelError>)
    ensures
        outcome(res) == found_title(text_of(found), path@),
        res matches Ok(title) ==> title@.len() > 0 && is_clean(title@) && is_spaced(title@),
{
    match found {
        Some(raw) => normalize(raw.as_str()),
        None => Err(NovelError::SelectorNotFound(String::from_str(path))),
    }
}

/// Trims the text that was found at `path`. Fails with `SelectorNotFound`
/// where none was found.
pub fn text_from(found: Option<String>, path: &str) -> (res: Result<String, NovelError>)
    ensures
        outcome(res) == found_text(text_of(found), path@),
{
    match found {
        Some(raw) => Ok(trim_text(raw.as_str())),
        None => Err(NovelError::SelectorNotFound(String::from_str(path))),
    }
}

/// Makes a chapter's body of the markup that was found at `path`. Fails with
/// `SelectorNotFound` where none was found.
pub fn body_from(found: Option<String>, path: &str) -> (res: Result<String, NovelError>)
    ensures
        outcome(res) == found_body(text_of(found), path@),
        res matches Ok(body) ==> first_block(body@) is None,
{
    match found {
        Some(raw) => {
            let text = trim_text(raw.as_str());
            Ok(remove_ad(text.as_str()))
        },
        None => Err(NovelError::SelectorNotFound(String::from_str(path))),
    }
}

/// Takes the value of the attribute `name` that was looked for in the
/// element at `path`. Fails with `SelectorNotFound` where no element was
/// found, and with `AttributeNotFound` where it lacks the attribute.
pub fn value_from(found: Option<Option<String>>, path: &str, name: &str) -> (res: Result<
    String,
    NovelError,
>)
    ensures
        outcome(res) == found_value(value_of(found), path@, name@),
{
    match found {
        Some(Some(value)) => Ok(value),
        Some(None) => Err(NovelError::AttributeNotFound(String::from_str(name))),
        None => Err(NovelError::SelectorNotFound(String::from_str(path))),
    }
}

/// The title of the novel whose cover page is `document`.
pub open spec fn cover_title(document: Seq<char>) -> Result<Seq<char>, Failure> {
    found_title(text_in(document, COVER_TITLE@), COVER_TITLE@)
}

/// The author of the novel whose cover page is `document`.
pub open spec fn cover_author(document: Seq<char>) -> Result<Seq<char>, Failure> {
    found_text(text_in(document, AUTHOR@), AUTHOR@)
}

/// The address of the cover image on the cover page `document`.
pub open spec fn cover_image_url(document: Seq<char>) -> Result<Seq<char>, Failure> {
    found_value(attribute_in(document, COVER_IMAGE@, IMAGE_SOURCE@), COVER_IMAGE@, IMAGE_SOURCE@)
}

/// The kind of the cover image on the cover page `document`.
pub open spec fn cover_image_kind(document: Seq<char>) -> Result<Seq<char>, Failure> {
    match cover_image_url(document) {
        Ok(url) => image_kind_of(url),
        Err(e) => Err(e),
    }
}

/// The address of the first chapter on the cover page `document`, as the
/// page gives it.
pub open spec fn first_chapter_link(document: Seq<char>) -> Result<Seq<char>, Failure> {
    found_value(attribute_in(document, FIRST_CHAPTER@, LINK_TARGET@), FIRST_CHAPTER@, LINK_TARGET@)
}

/// The title of the chapter whose page is `document`.
pub open spec fn chapter_title(document: Seq<char>) -> Result<Seq<char>, Failure> {
    found_title(text_in(document, CHAPTER_TITLE@), CHAPTER_TITLE@)
}

/// The body of the chapter whose page is `document`.
pub open spec fn chapter_body(document: Seq<char>) -> Result<Seq<char>, Failure> {
    found_body(markup_in(document, CHAPTER_BODY@), CHAPTER_BODY@)
}

/// The address of the next chapter on the chapter's page `document`, as the
/// page gives it.
pub open spec fn next_chapter_link(document: Seq<char>) -> Result<Seq<char>, Failure> {
    found_value(attribute_in(document, NEXT_CHAPTER@, LINK_TARGET@), NEXT_CHAPTER@, LINK_TARGET@)
}

/// The document that the chapter whose page is `document` is stored as.
pub open spec fn chapter_document(document: Seq<char>) -> Result<Seq<char>, Failure> {
    match chapter_title(document) {
        Err(e) => Err(e),
        Ok(title) => match chapter_body(document) {
            Err(e) => Err(e),
            Ok(body) => Ok(document_of(title, body)),
        },
    }
}

/// In a page that is too long to be read no field is found.
pub proof fn lemma_page_too_long(document: Seq<char>)
    requires
        !is_readable(document),
    ensures
        cover_title(document) == Err::<Seq<char>, Failure>(Failure::SelectorNotFound(COVER_TITLE@)),
        cover_author(document) == Err::<Seq<char>, Failure>(Failure::SelectorNotFound(AUTHOR@)),
        cover_image_url(document) == Err::<Seq<char>, Failure>(
            Failure::SelectorNotFound(COVER_IMAGE@),
        ),
        cover_image_kind(document) == Err::<Seq<char>, Failure>(
            Failure::SelectorNotFound(COVER_IMAGE@),
        ),
        first_chapter_link(document) == Err::<Seq<char>, Failure>(
            Failure::SelectorNotFound(FIRST_CHAPTER@),
        ),
        chapter_title(document) == Err::<Seq<char>, Failure>(
            Failure::SelectorNotFound(CHAPTER_TITLE@),
        ),
        chapter_body(document) == Err::<Seq<char>, Failure>(
            Failure::SelectorNotFound(CHAPTER_BODY@),
        ),
        next_chapter_link(document) == Err::<Seq<char>, Failure>(
            Failure::SelectorNotFound(NEXT_CHAPTER@),
        ),
        chapter_document(document) == Err::<Seq<char>, Failure>(
            Failure::SelectorNotFound(CHAPTER_TITLE@),
        ),
{
}

/// The cover page of a novel, as it was fetched.
pub struct CoverPage {
    source: String,
}

impl View for CoverPage {
    type V = Seq<char>;

    closed spec fn view(&self) -> Seq<char> {
        self.source@
    }
}

impl CoverPage {
    /// The cover page whose text is `page`.
    pub fn new(page: String) -> (cover: Self)
        ensures
            cover@ == page@,
    {
        CoverPage { source: page }
    }

    /// The title of the novel. Fails with `SelectorNotFound` where the page
    /// has no title or is too long to be read, and with `EmptyField` where
    /// the title comes out empty.
    pub fn title(&self) -> (res: Result<String, NovelError>)
        ensures
            outcome(res) == cover_title(self@),
            selected_text(self@, COVER_TITLE@) is None || !is_readable(self@) ==> outcome(res) == Err::<
                Seq<char>,
                Failure,
            >(Failure::SelectorNotFound(COVER_TITLE@)),
            res matches Ok(title) ==> title@.len() > 0 && is_clean(title@) && is_spaced(title@),
    {
        title_from(find_text(self.source.as_str(), COVER_TITLE), COVER_TITLE)
    }

    /// The author of the novel.
    pub fn author(&self) -> (res: Result<String, NovelError>)
        ensures
            outcome(res) == cover_author(self@),
    {
        text_from(find_text(self.source.as_str(), AUTHOR), AUTHOR)
    }

    /// The address of the cover image.
    pub fn cover_img_url(&self) -> (res: Result<String, NovelError>)
        ensures
            outcome(res) == cover_image_url(self@),
    {
        value_from(
            find_attribute(self.source.as_str(), COVER_IMAGE, IMAGE_SOURCE),
            COVER_IMAGE,
            IMAGE_SOURCE,
        )
    }

    /// The kind of the cover image: the file extension of its address.
    pub fn cover_img_type(&self) -> (res: Result<String, NovelError>)
        ensures
            outcome(res) == cover_image_kind(self@),
    {
        match self.cover_img_url() {
            Ok(url) => image_kind(url.as_str()),
            Err(e) => Err(e),
        }
    }

    /// The address of the first chapter, as the page gives it.
    pub fn chapter_first_url(&self) -> (res: Result<String, NovelError>)
        ensures
            outcome(res) == first_chapter_link(self@),
    {
        value_from(
            find_attribute(self.source.as_str(), FIRST_CHAPTER, LINK_TARGET),
            FIRST_CHAPTER,
            LINK_TARGET,
        )
    }
}

/// The page of a chapter, as it was fetched.
pub struct ChapterPage {
    source: String,
}

impl View for ChapterPage {
    type V = Seq<char>;

    closed spec fn view(&self) -> Seq<char> {
        self.source@
    }
}

impl ChapterPage {
    /// The chapter's page whose text is `page`.
    pub fn new(page: String) -> (chapter: Self)
        ensures
            chapter@ == page@,
    {
        ChapterPage { source: page }
    }

    /// The title of the chapter. Fails with `SelectorNotFound` where the
    /// page has no title or is too long to be read, and with `EmptyField`
    /// where the title comes out empty.
    pub fn title(&self) -> (res: Result<String, NovelError>)
        ensures
            outcome(res) == chapter_title(self@),
            selected_text(self@, CHAPTER_TITLE@) is None || !is_readable(self@) ==> outcome(res) == Err::<
                Seq<char>,
                Failure,
            >(Failure::SelectorNotFound(CHAPTER_TITLE@)),
            res matches Ok(title) ==> title@.len() > 0 && is_clean(title@) && is_spaced(title@),
    {
        title_from(find_text(self.source.as_str(), CHAPTER_TITLE), CHAPTER_TITLE)
    }

    /// The body of the chapter, without its blocks.
    pub fn content(&self) -> (res: Result<String, NovelError>)
        ensures
            outcome(res) == chapter_body(self@),
            res matches Ok(body) ==> first_block(body@) is None,
    {
        body_from(find_markup(self.source.as_str(), CHAPTER_BODY), CHAPTER_BODY)
    }

    /// The address of the next chapter, as the page gives it.
    pub fn chapter_next_url(&self) -> (res: Result<String, NovelError>)
        ensures
            outcome(res) == next_chapter_link(self@),
    {
        value_from(
            find_attribute(self.source.as_str(), NEXT_CHAPTER, LINK_TARGET),
            NEXT_CHAPTER,
            LINK_TARGET,
        )
    }

    /// The document that the chapter is stored as.
    pub fn compose_xhtml(&self) -> (res: Result<String, NovelError>)
        ensures
            outcome(res) == chapter_document(self@),
    {
        let title = match self.title() {
            Ok(title) => title,
            Err(e) => return Err(e),
        };
        let body = match self.content() {
            Ok(body) => body,
            Err(e) => return Err(e),
        };
        Ok(compose_document(title.as_str(), body.as_str()))
    }
}

} // verus!
