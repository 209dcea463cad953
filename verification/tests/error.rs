use novel_epub::error::NovelError;

#[test]
fn each_failure_is_told() {
    assert_eq!(NovelError::HttpStatus(404).message(), "The server answered with status 404");
    assert_eq!(NovelError::HttpStatus(0).message(), "The server answered with status 0");
    assert_eq!(
        NovelError::SelectorNotFound("h1.novel-title".to_string()).message(),
        "No element matches the selector h1.novel-title"
    );
    assert_eq!(
        NovelError::AttributeNotFound("href".to_string()).message(),
        "The element has no attribute href"
    );
    assert_eq!(NovelError::EmptyField.message(), "A field that may not be empty is empty");
    assert_eq!(NovelError::InvalidUrl.message(), "The address starts with no host");
    assert_eq!(
        NovelError::ImageKindUnrecognized.message(),
        "The address of the cover image names no kind of image"
    );
    assert_eq!(NovelError::UnsupportedSource.message(), "Only the lightnovelworld.com is supported");
    assert_eq!(NovelError::UsageError.message(), "Please specify novel url");
    assert_eq!(
        NovelError::Encoder("duplicate".to_string()).message(),
        "The book could not be made: duplicate"
    );
}
