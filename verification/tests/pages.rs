use postscrape::pages::{parse_max_pages, page_urls};

#[test]
fn max_pages_default_when_absent() {
    assert_eq!(parse_max_pages(None), 1);
}

#[test]
fn max_pages_default_when_not_numeric() {
    assert_eq!(parse_max_pages(Some("abc")), 1);
    assert_eq!(parse_max_pages(Some("")), 1);
    assert_eq!(parse_max_pages(Some("3x")), 1);
    assert_eq!(parse_max_pages(Some("-2")), 1);
    assert_eq!(parse_max_pages(Some(" 4")), 1);
}

#[test]
fn max_pages_default_when_overflowing() {
    assert_eq!(parse_max_pages(Some("999999999999999999999999999999")), 1);
}

#[test]
fn max_pages_clamped_into_range() {
    assert_eq!(parse_max_pages(Some("0")), 1);
    assert_eq!(parse_max_pages(Some("1")), 1);
    assert_eq!(parse_max_pages(Some("5")), 5);
    assert_eq!(parse_max_pages(Some("10")), 10);
    assert_eq!(parse_max_pages(Some("11")), 10);
    assert_eq!(parse_max_pages(Some("100")), 10);
}

#[test]
fn max_pages_accepts_leading_plus() {
    assert_eq!(parse_max_pages(Some("+3")), 3);
    assert_eq!(parse_max_pages(Some("++3")), 1);
}

#[test]
fn page_urls_count_and_shape() {
    for k in 1..=10usize {
        let urls = page_urls(k);
        assert_eq!(urls.len(), k);
        assert_eq!(urls[0], "https://jnovels.com/?s=epub");
        for i in 1..k {
            assert!(urls[i].contains(&format!("page/{}/", i)));
            assert_eq!(urls[i], format!("https://jnovels.com/page/{}/?s=epub", i));
        }
    }
}
