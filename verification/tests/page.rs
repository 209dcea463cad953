use novel_epub::error::NovelError;
use novel_epub::page::{
    body_from, text_from, title_from, value_from, ChapterPage, CoverPage, AUTHOR, CHAPTER_BODY,
    CHAPTER_TITLE, COVER_IMAGE, COVER_TITLE, FIRST_CHAPTER, IMAGE_SOURCE, LINK_TARGET,
    NEXT_CHAPTER, PAGE_LIMIT,
};

const COVER: &str = "<!DOCTYPE html><html><head><title>x</title></head><body>\
<article id=\"novel\"><header><div class=\"header-body container\">\
<div class=\"fixed-img\"><figure class=\"cover\">\
<img class=\"lazy\" src=\"/placeholder.png\" \
data-src=\"https://static.lightnovelworld.com/bookcover/300x400/01365-shadow-slave.jpg?v=3\" alt=\"cover\">\
</figure></div>\
<div class=\"novel-info\"><div class=\"main-head\">\
<h1 itemprop=\"name\" class=\"novel-title text2row\">\n  Shadow: Slave?  \n</h1>\
<div class=\"author\"><span>Author:</span>\
<a href=\"/author/guiltythree\" class=\"property-item\"><span itemprop=\"author\"> Guiltythree </span></a>\
</div></div></div></div></header>\
<a id=\"readchapterbtn\" class=\"button\" href=\"/novel/shadow-slave/chapter-1\">Read</a>\
</article></body></html>";

const CHAPTER: &str = "<html><body><article id=\"chapter-article\"><section>\
<div class=\"titles\"><span class=\"chapter-title\"> Chapter 1: Nightmare Begins </span></div>\
<div id=\"chapter-container\" class=\"chapter-content\">\n\
<p>First.</p><div class=\"ad-slot\"><ins>buy</ins></div><p>Second &amp; last.</p>\n\
</div>\
<div class=\"chapternav\">\
<a class=\"button prevchap\" href=\"/novel/shadow-slave/chapter-0\">Prev</a>\
<a class=\"button nextchap\" href=\"/novel/shadow-slave/chapter-2\">Next</a>\
</div></section></article></body></html>";

fn cover(text: &str) -> CoverPage {
    CoverPage::new(text.to_string())
}

fn chapter(text: &str) -> ChapterPage {
    ChapterPage::new(text.to_string())
}

#[test]
fn selector_paths_are_those_of_the_site() {
    assert_eq!(COVER_TITLE, "h1.novel-title");
    assert_eq!(AUTHOR, "div.author > a > span");
    assert_eq!(COVER_IMAGE, "div.fixed-img > figure > img");
    assert_eq!(IMAGE_SOURCE, "data-src");
    assert_eq!(FIRST_CHAPTER, "#readchapterbtn");
    assert_eq!(CHAPTER_TITLE, "span.chapter-title");
    assert_eq!(CHAPTER_BODY, "div.chapter-content");
    assert_eq!(NEXT_CHAPTER, "a.button.nextchap");
    assert_eq!(LINK_TARGET, "href");
}

#[test]
fn cover_page_gives_its_fields() {
    let page = cover(COVER);
    assert_eq!(page.title(), Ok("Shadow Slave".to_string()));
    assert_eq!(page.author(), Ok("Guiltythree".to_string()));
    assert_eq!(
        page.cover_img_url(),
        Ok("https://static.lightnovelworld.com/bookcover/300x400/01365-shadow-slave.jpg?v=3"
            .to_string())
    );
    assert_eq!(page.cover_img_type(), Ok("jpg".to_string()));
    assert_eq!(page.chapter_first_url(), Ok("/novel/shadow-slave/chapter-1".to_string()));
}

#[test]
fn cover_page_gives_the_same_again() {
    let page = cover(COVER);
    assert_eq!(page.title(), page.title());
    assert_eq!(page.cover_img_type(), page.cover_img_type());
}

#[test]
fn title_fails_where_no_element_matches() {
    for text in ["", "<html><body><p>nothing</p></body></html>", "<h1>Plain heading</h1>", "<<<"] {
        assert_eq!(
            cover(text).title(),
            Err(NovelError::SelectorNotFound("h1.novel-title".to_string()))
        );
        assert_eq!(
            chapter(text).title(),
            Err(NovelError::SelectorNotFound("span.chapter-title".to_string()))
        );
    }
}

#[test]
fn title_fails_where_it_comes_out_empty() {
    assert_eq!(
        cover("<h1 class=\"novel-title\"> ?? </h1>").title(),
        Err(NovelError::EmptyField)
    );
    assert_eq!(
        chapter("<span class=\"chapter-title\"></span>").title(),
        Err(NovelError::EmptyField)
    );
}

#[test]
fn title_is_the_text_of_the_element() {
    assert_eq!(
        cover("<h1 class=\"novel-title\">Tom &amp; <i>Jerry</i></h1>").title(),
        Ok("Tom & Jerry".to_string())
    );
    assert_eq!(
        cover("<h1 class=\"novel-title\">First</h1><h1 class=\"novel-title\">Second</h1>").title(),
        Ok("First".to_string())
    );
}

#[test]
fn other_fields_fail_where_no_element_matches() {
    let page = cover("<html><body></body></html>");
    assert_eq!(page.author(), Err(NovelError::SelectorNotFound("div.author > a > span".to_string())));
    assert_eq!(
        page.cover_img_url(),
        Err(NovelError::SelectorNotFound("div.fixed-img > figure > img".to_string()))
    );
    assert_eq!(
        page.cover_img_type(),
        Err(NovelError::SelectorNotFound("div.fixed-img > figure > img".to_string()))
    );
    assert_eq!(
        page.chapter_first_url(),
        Err(NovelError::SelectorNotFound("#readchapterbtn".to_string()))
    );
    let page = chapter("<html><body></body></html>");
    assert_eq!(page.content(), Err(NovelError::SelectorNotFound("div.chapter-content".to_string())));
    assert_eq!(
        page.chapter_next_url(),
        Err(NovelError::SelectorNotFound("a.button.nextchap".to_string()))
    );
    assert_eq!(
        page.compose_xhtml(),
        Err(NovelError::SelectorNotFound("span.chapter-title".to_string()))
    );
}

#[test]
fn fields_fail_where_the_attribute_is_missing() {
    let page = cover(
        "<div class=\"fixed-img\"><figure><img src=\"a.png\"></figure></div>\
<a id=\"readchapterbtn\">Read</a>",
    );
    assert_eq!(page.cover_img_url(), Err(NovelError::AttributeNotFound("data-src".to_string())));
    assert_eq!(page.cover_img_type(), Err(NovelError::AttributeNotFound("data-src".to_string())));
    assert_eq!(page.chapter_first_url(), Err(NovelError::AttributeNotFound("href".to_string())));
    let page = chapter("<a class=\"button nextchap\">Next</a>");
    assert_eq!(page.chapter_next_url(), Err(NovelError::AttributeNotFound("href".to_string())));
}

#[test]
fn cover_img_type_fails_on_an_address_without_extension() {
    let page = cover(
        "<div class=\"fixed-img\"><figure><img data-src=\"https://a.b.c/covers/17\"></figure></div>",
    );
    assert_eq!(page.cover_img_url(), Ok("https://a.b.c/covers/17".to_string()));
    assert_eq!(page.cover_img_type(), Err(NovelError::ImageKindUnrecognized));
}

#[test]
fn chapter_page_gives_its_fields() {
    let page = chapter(CHAPTER);
    assert_eq!(page.title(), Ok("Chapter 1 Nightmare Begins".to_string()));
    assert_eq!(page.content(), Ok("<p>First.</p><p>Second &amp; last.</p>".to_string()));
    assert_eq!(page.chapter_next_url(), Ok("/novel/shadow-slave/chapter-2".to_string()));
}

#[test]
fn chapter_document_holds_title_and_body() {
    let document = chapter(CHAPTER).compose_xhtml().unwrap();
    assert!(document.contains("<h1>\nChapter 1 Nightmare Begins\n  </h1>"));
    assert!(document.contains("<body>\n<p>First.</p><p>Second &amp; last.</p>\n </body>"));
    assert!(!document.contains("ad-slot"));
}

#[test]
fn chapter_document_fails_without_body() {
    let page = chapter("<span class=\"chapter-title\">One</span>");
    assert_eq!(
        page.compose_xhtml(),
        Err(NovelError::SelectorNotFound("div.chapter-content".to_string()))
    );
}

#[test]
fn what_was_found_decides_the_field() {
    assert_eq!(title_from(Some(" a: b ".to_string()), "p"), Ok("a b".to_string()));
    assert_eq!(title_from(Some(" : ".to_string()), "p"), Err(NovelError::EmptyField));
    assert_eq!(title_from(None, "p > q"), Err(NovelError::SelectorNotFound("p > q".to_string())));
    assert_eq!(text_from(Some(" a: b ".to_string()), "p"), Ok("a: b".to_string()));
    assert_eq!(text_from(Some("  ".to_string()), "p"), Ok("".to_string()));
    assert_eq!(text_from(None, "p"), Err(NovelError::SelectorNotFound("p".to_string())));
    assert_eq!(body_from(Some(" <p>x</p><div>y</div> ".to_string()), "p"), Ok("<p>x</p>".to_string()));
    assert_eq!(body_from(None, "p"), Err(NovelError::SelectorNotFound("p".to_string())));
    assert_eq!(value_from(Some(Some("v".to_string())), "p", "href"), Ok("v".to_string()));
    assert_eq!(
        value_from(Some(None), "p", "href"),
        Err(NovelError::AttributeNotFound("href".to_string()))
    );
    assert_eq!(value_from(None, "p", "href"), Err(NovelError::SelectorNotFound("p".to_string())));
}

fn too_long(start: &str) -> String {
    let mut text = String::with_capacity(PAGE_LIMIT + 1);
    text.push_str(start);
    text.push_str(&" ".repeat(PAGE_LIMIT + 1 - start.len()));
    text
}

#[test]
fn a_cover_page_too_long_to_be_read_holds_nothing() {
    assert_eq!(PAGE_LIMIT, 715_827_882);
    assert_eq!(cover(COVER).title(), Ok("Shadow Slave".to_string()));
    let page = CoverPage::new(too_long(COVER));
    assert_eq!(page.title(), Err(NovelError::SelectorNotFound("h1.novel-title".to_string())));
    assert_eq!(page.author(), Err(NovelError::SelectorNotFound("div.author > a > span".to_string())));
    assert_eq!(
        page.cover_img_type(),
        Err(NovelError::SelectorNotFound("div.fixed-img > figure > img".to_string()))
    );
    assert_eq!(
        page.chapter_first_url(),
        Err(NovelError::SelectorNotFound("#readchapterbtn".to_string()))
    );
}

#[test]
fn a_chapter_page_too_long_to_be_read_holds_nothing() {
    let page = ChapterPage::new(too_long(CHAPTER));
    assert_eq!(page.title(), Err(NovelError::SelectorNotFound("span.chapter-title".to_string())));
    assert_eq!(page.content(), Err(NovelError::SelectorNotFound("div.chapter-content".to_string())));
    assert_eq!(
        page.chapter_next_url(),
        Err(NovelError::SelectorNotFound("a.button.nextchap".to_string()))
    );
    assert_eq!(
        page.compose_xhtml(),
        Err(NovelError::SelectorNotFound("span.chapter-title".to_string()))
    );
}
