use novel_epub::error::NovelError;
use novel_epub::url::{host, image_kind, site_host, validate_arg, SITE};

fn args(list: &[&str]) -> Vec<String> {
    list.iter().map(|s| s.to_string()).collect()
}

#[test]
fn host_is_scheme_and_two_labels_or_more() {
    assert_eq!(
        host("https://example.site.com/novel/123"),
        Ok("https://example.site.com".to_string())
    );
    assert_eq!(host("https://example.com/novel/123"), Ok("https://example.com".to_string()));
    assert_eq!(
        host("http://www.lightnovelworld.com"),
        Ok("http://www.lightnovelworld.com".to_string())
    );
    assert_eq!(host("https://a.b"), Ok("https://a.b".to_string()));
    assert_eq!(host("httpss://a.b.c"), Ok("httpss://a.b.c".to_string()));
    assert_eq!(host("https://A.Bc.DEF?x=1"), Ok("https://A.Bc.DEF".to_string()));
}

#[test]
fn host_takes_every_label_that_stands_there() {
    assert_eq!(host("https://a.b.c.d/x"), Ok("https://a.b.c.d".to_string()));
    assert_eq!(host("https://a.b.c.d.e.f"), Ok("https://a.b.c.d.e.f".to_string()));
    assert_eq!(host("https://a.b.c9"), Ok("https://a.b.c".to_string()));
    assert_eq!(host("https://a.b./c"), Ok("https://a.b".to_string()));
    assert_eq!(host("https://a.b..c"), Ok("https://a.b".to_string()));
    assert_eq!(host("https://a.b.c:8080/x.y"), Ok("https://a.b.c".to_string()));
    assert_eq!(host("https://a.b/c.d.e"), Ok("https://a.b".to_string()));
}

#[test]
fn host_fails_with_fewer_than_two_labels() {
    assert_eq!(host("https://localhost"), Err(NovelError::InvalidUrl));
    assert_eq!(host("https://localhost/novel/x.y.z"), Err(NovelError::InvalidUrl));
    assert_eq!(host("https://a./b"), Err(NovelError::InvalidUrl));
    assert_eq!(host("https://a..b.c"), Err(NovelError::InvalidUrl));
    assert_eq!(host("https://.a.b.c"), Err(NovelError::InvalidUrl));
    assert_eq!(host("https://"), Err(NovelError::InvalidUrl));
}

#[test]
fn host_fails_on_other_beginnings() {
    assert_eq!(host(""), Err(NovelError::InvalidUrl));
    assert_eq!(host("htt"), Err(NovelError::InvalidUrl));
    assert_eq!(host("ftp://a.b.c"), Err(NovelError::InvalidUrl));
    assert_eq!(host("https:/a.b.c"), Err(NovelError::InvalidUrl));
    assert_eq!(host("httpx://a.b.c"), Err(NovelError::InvalidUrl));
    assert_eq!(host(" https://a.b.c"), Err(NovelError::InvalidUrl));
    assert_eq!(host("see https://a.b.c"), Err(NovelError::InvalidUrl));
    assert_eq!(host("https://a1.b.c"), Err(NovelError::InvalidUrl));
    assert_eq!(host("https://my-site.b.c"), Err(NovelError::InvalidUrl));
    assert_eq!(host("HTTPS://a.b.c"), Err(NovelError::InvalidUrl));
}

#[test]
fn image_kind_is_the_extension() {
    assert_eq!(image_kind("https://img.site.com/cover.jpg?v=3"), Ok("jpg".to_string()));
    assert_eq!(image_kind("https://img.site.com/cover.PNG"), Ok("PNG".to_string()));
    assert_eq!(image_kind("https://img.site.com/cover.jpg?v="), Ok("jpg".to_string()));
    assert_eq!(image_kind("https://img.site.com/cover.webp?v=20240131"), Ok("webp".to_string()));
    assert_eq!(image_kind("cover"), Ok("cover".to_string()));
    assert_eq!(image_kind("a.b?v=12x"), Ok("x".to_string()));
    assert_eq!(image_kind("x.gif9"), Err(NovelError::ImageKindUnrecognized));
}

#[test]
fn image_kind_fails_without_letters_at_the_end() {
    assert_eq!(image_kind("https://img.site.com/cover.123"), Err(NovelError::ImageKindUnrecognized));
    assert_eq!(image_kind("https://img.site.com/img/"), Err(NovelError::ImageKindUnrecognized));
    assert_eq!(image_kind(""), Err(NovelError::ImageKindUnrecognized));
    assert_eq!(image_kind("?v=3"), Err(NovelError::ImageKindUnrecognized));
    assert_eq!(image_kind("cover.jpg?v=3?v=4"), Err(NovelError::ImageKindUnrecognized));
    assert_eq!(image_kind("cover.jpg?w=3"), Err(NovelError::ImageKindUnrecognized));
    assert_eq!(image_kind("cover.jpg?v=3 "), Err(NovelError::ImageKindUnrecognized));
}

#[test]
fn validate_arg_takes_one_address_of_the_site() {
    assert_eq!(SITE, "lightnovelworld.com");
    assert_eq!(
        validate_arg(&args(&["prog", "https://www.lightnovelworld.com/novel/shadow-slave"])),
        Ok("https://www.lightnovelworld.com/novel/shadow-slave".to_string())
    );
}

#[test]
fn validate_arg_fails_on_the_wrong_number() {
    assert_eq!(validate_arg(&args(&[])), Err(NovelError::UsageError));
    assert_eq!(validate_arg(&args(&["prog"])), Err(NovelError::UsageError));
    assert_eq!(
        validate_arg(&args(&["prog", "https://www.lightnovelworld.com/a", "b"])),
        Err(NovelError::UsageError)
    );
}

#[test]
fn validate_arg_takes_the_site_with_and_without_labels_before_it() {
    for url in [
        "https://lightnovelworld.com/novel/x",
        "http://lightnovelworld.com",
        "https://www.lightnovelworld.com",
        "https://m.www.lightnovelworld.com/novel/x",
        "https://www.lightnovelworld.com:8080/x",
        "https://www.lightnovelworld.com./x",
    ] {
        assert_eq!(validate_arg(&args(&["prog", url])), Ok(url.to_string()), "{}", url);
    }
}

#[test]
fn validate_arg_fails_on_an_address_without_host() {
    assert_eq!(validate_arg(&args(&["prog", "lightnovelworld.com"])), Err(NovelError::InvalidUrl));
    assert_eq!(
        validate_arg(&args(&["prog", "https://localhost/lightnovelworld.com"])),
        Err(NovelError::InvalidUrl)
    );
    assert_eq!(
        validate_arg(&args(&["prog", "www.lightnovelworld.com/novel/x"])),
        Err(NovelError::InvalidUrl)
    );
}

#[test]
fn validate_arg_fails_on_another_site() {
    for url in [
        "https://www.example.com/novel/x",
        "https://www.lightnovelworld.org/novel/x",
        "https://www.example.com/lightnovelworld.com",
        "https://www.example.com/?from=https://www.lightnovelworld.com",
        "https://evillightnovelworld.com/novel/x",
        "https://www.lightnovelworld.com.evil.org/novel/x",
        "https://www.lightnovelworld.comx/novel/x",
        "https://lightnovelworld.co/m",
        "https://www.LightNovelWorld.com/novel/x",
    ] {
        assert_eq!(
            validate_arg(&args(&["prog", url])),
            Err(NovelError::UnsupportedSource),
            "{}",
            url
        );
    }
}

#[test]
fn site_host_goes_by_the_end_of_the_host() {
    assert!(site_host("https://lightnovelworld.com"));
    assert!(site_host("http://www.lightnovelworld.com"));
    assert!(!site_host("https://xlightnovelworld.com"));
    assert!(!site_host("lightnovelworld.com"));
    assert!(!site_host("https://lightnovelworld.com.org"));
    assert!(!site_host("https://www.example.com"));
    assert!(!site_host(""));
}
