use novel_epub::error::NovelError;
use novel_epub::novel::{check_status, Novel};

const ADDRESS: &str = "https://www.lightnovelworld.com/novel/the-book";

const COVER: &str = "<html><body>\
<div class=\"fixed-img\"><figure><img data-src=\"https://img.site.com/the-book.PNG\"></figure></div>\
<h1 class=\"novel-title\">The Book: A Tale</h1>\
<div class=\"author\"><a href=\"/author/a\"><span>A. Writer</span></a></div>\
<a id=\"readchapterbtn\" href=\"/novel/the-book/chapter-a\">Read</a>\
</body></html>";

const PAGE_A: &str = "<html><body>\
<span class=\"chapter-title\">Chapter A</span>\
<div class=\"chapter-content\"><p>Alpha.</p></div>\
<a class=\"button nextchap\" href=\"/novel/the-book/chapter-b\">Next</a>\
</body></html>";

const PAGE_B: &str = "<html><body>\
<span class=\"chapter-title\">Chapter B</span>\
<div class=\"chapter-content\"><p>Beta.</p></div>\
<a class=\"button prevchap\" href=\"/novel/the-book/chapter-a\">Prev</a>\
</body></html>";

fn start() -> Novel {
    Novel::new(ADDRESS, "novel", COVER.to_string()).unwrap()
}

#[test]
fn check_status_takes_200_only() {
    assert_eq!(check_status(200), Ok(()));
    for code in [0u16, 199, 201, 204, 301, 404, 500, u16::MAX] {
        assert_eq!(check_status(code), Err(NovelError::HttpStatus(code)));
    }
}

#[test]
fn new_fails_on_an_address_without_host() {
    assert!(matches!(
        Novel::new("https://localhost/novel", "novel", COVER.to_string()),
        Err(NovelError::InvalidUrl)
    ));
    assert!(matches!(Novel::new("", "novel", String::new()), Err(NovelError::InvalidUrl)));
}

#[test]
fn new_novel_has_read_nothing() {
    let novel = start();
    assert_eq!(novel.chapter_id(), 0);
    assert!(novel.chapter().is_none());
    assert_eq!(novel.cover().title(), Ok("The Book A Tale".to_string()));
    assert!(matches!(novel.chapter_save(), Err(NovelError::EmptyField)));
}

#[test]
fn traversal_reads_two_chapters_and_ends() {
    let mut novel = start();
    let mut stored: Vec<String> = Vec::new();

    assert_eq!(
        novel.next_url(),
        Some("https://www.lightnovelworld.com/novel/the-book/chapter-a".to_string())
    );
    assert!(novel.next(Some(PAGE_A.to_string())));
    assert_eq!(novel.chapter_id(), 1);
    assert_eq!(novel.chapter().unwrap().title(), Ok("Chapter A".to_string()));
    stored.push(novel.chapter_save().unwrap().path);

    assert_eq!(
        novel.next_url(),
        Some("https://www.lightnovelworld.com/novel/the-book/chapter-b".to_string())
    );
    assert!(novel.next(Some(PAGE_B.to_string())));
    assert_eq!(novel.chapter_id(), 2);
    assert_eq!(novel.chapter().unwrap().title(), Ok("Chapter B".to_string()));
    stored.push(novel.chapter_save().unwrap().path);

    assert_eq!(novel.next_url(), None);
    assert!(!novel.next(None));
    assert!(novel.chapter().is_none());
    assert_eq!(novel.chapter_id(), 2);

    assert_eq!(
        stored,
        vec![
            "novel/The Book A Tale/00000001 Chapter A.xhtml".to_string(),
            "novel/The Book A Tale/00000002 Chapter B.xhtml".to_string(),
        ]
    );
}

#[test]
fn after_the_end_nothing_is_read() {
    let mut novel = start();
    assert!(novel.next(Some(PAGE_B.to_string())));
    assert!(!novel.next(Some(PAGE_A.to_string())));
    assert_eq!(novel.next_url(), None);
    assert!(!novel.next(Some(PAGE_A.to_string())));
    assert!(novel.chapter().is_none());
    assert_eq!(novel.chapter_id(), 1);
    assert!(matches!(novel.chapter_save(), Err(NovelError::EmptyField)));
}

#[test]
fn a_failed_fetch_ends_the_novel() {
    let mut novel = start();
    assert!(novel.next_url().is_some());
    assert!(!novel.next(None));
    assert_eq!(novel.chapter_id(), 0);
    assert_eq!(novel.next_url(), None);

    let mut novel = start();
    assert!(novel.next(Some(PAGE_A.to_string())));
    assert!(!novel.next(None));
    assert_eq!(novel.chapter_id(), 1);
    assert_eq!(novel.next_url(), None);
}

#[test]
fn a_cover_without_first_chapter_ends_the_novel() {
    let mut novel =
        Novel::new(ADDRESS, "novel", "<h1 class=\"novel-title\">T</h1>".to_string()).unwrap();
    assert_eq!(novel.next_url(), None);
    assert!(!novel.next(Some(PAGE_A.to_string())));
    assert!(novel.chapter().is_none());
    assert_eq!(novel.chapter_id(), 0);
}

#[test]
fn a_link_without_address_ends_the_novel() {
    let mut novel = start();
    let page = "<span class=\"chapter-title\">Last</span>\
<div class=\"chapter-content\">x</div><a class=\"button nextchap\">Next</a>";
    assert!(novel.next(Some(page.to_string())));
    assert_eq!(novel.next_url(), None);
    assert!(!novel.next(Some(PAGE_B.to_string())));
}

#[test]
fn cover_img_save_places_the_image_by_title_and_kind() {
    let file = start().cover_img_save().unwrap();
    assert_eq!(file.dir, "novel/The Book A Tale");
    assert_eq!(file.path, "novel/The Book A Tale/The Book A Tale.PNG");
    assert_eq!(file.url, "https://img.site.com/the-book.PNG");
}

#[test]
fn cover_img_save_fails_as_the_cover_page_does() {
    let novel = Novel::new(ADDRESS, "novel", "<html></html>".to_string()).unwrap();
    assert!(matches!(
        novel.cover_img_save(),
        Err(NovelError::SelectorNotFound(path)) if path == "h1.novel-title"
    ));
    let novel = Novel::new(ADDRESS, "n", "<h1 class=\"novel-title\">T</h1>".to_string()).unwrap();
    assert!(matches!(
        novel.cover_img_save(),
        Err(NovelError::SelectorNotFound(path)) if path == "div.fixed-img > figure > img"
    ));
}

#[test]
fn chapter_save_gives_place_and_document() {
    let mut novel = start();
    novel.next(Some(PAGE_A.to_string()));
    let file = novel.chapter_save().unwrap();
    assert_eq!(file.dir, "novel/The Book A Tale");
    assert_eq!(file.path, "novel/The Book A Tale/00000001 Chapter A.xhtml");
    assert_eq!(file.document, novel.chapter().unwrap().compose_xhtml().unwrap());
    assert!(file.document.contains("<p>Alpha.</p>"));
}

#[test]
fn chapter_save_twice_gives_one_place() {
    let mut novel = start();
    novel.next(Some(PAGE_A.to_string()));
    let first = novel.chapter_save().unwrap();
    let second = novel.chapter_save().unwrap();
    assert_eq!(first.path, second.path);
    assert_eq!(first.document, second.document);
    let mut files = std::collections::BTreeMap::new();
    files.insert(first.path, first.document);
    assert_eq!(files.len(), 1);
    files.insert(second.path, second.document);
    assert_eq!(files.len(), 1);
}

#[test]
fn chapter_save_fails_as_the_chapter_page_does() {
    let mut novel = start();
    novel.next(Some("<div class=\"chapter-content\">x</div>".to_string()));
    assert!(matches!(
        novel.chapter_save(),
        Err(NovelError::SelectorNotFound(path)) if path == "span.chapter-title"
    ));
}

#[test]
fn archive_plan_names_cover_and_book() {
    let plan = start().archive_plan().unwrap();
    assert_eq!(plan.author, "A. Writer");
    assert_eq!(plan.title, "The Book A Tale");
    assert_eq!(plan.dir, "novel/The Book A Tale");
    assert_eq!(plan.cover_name, "The Book A Tale.PNG");
    assert_eq!(plan.cover_mime, "image/PNG");
    assert_eq!(plan.output, "novel/The Book A Tale.epub");
}

#[test]
fn archive_plan_fails_as_the_cover_page_does() {
    let novel = Novel::new(ADDRESS, "n", "<h1 class=\"novel-title\">T</h1>".to_string()).unwrap();
    assert!(matches!(
        novel.archive_plan(),
        Err(NovelError::SelectorNotFound(path)) if path == "div.author > a > span"
    ));
}
