use postscrape::ScrapeError;
use postscrape::canon::{canonical_image, canonical_link};

#[test]
fn image_query_string_stripped() {
    let r = canonical_image(String::from("https://img.example/x.jpg?w=100"));
    assert_eq!(r, "https://img.example/x.jpg");
}

#[test]
fn image_without_query_kept() {
    let r = canonical_image(String::from("https://img.example/x.jpg"));
    assert_eq!(r, "https://img.example/x.jpg");
}

#[test]
fn image_malformed_passed_through() {
    assert_eq!(canonical_image(String::from("not a url")), "not a url");
    assert_eq!(canonical_image(String::from("/relative/x.jpg")), "/relative/x.jpg");
    assert_eq!(canonical_image(String::new()), "");
}

#[test]
fn link_tracking_parameters_stripped() {
    let r = canonical_link("https://example.com/test?utm_source=abc").unwrap();
    assert_eq!(r, "https://example.com/test");
}

#[test]
fn link_fragment_stripped() {
    let r = canonical_link("https://example.com/read#more-55").unwrap();
    assert_eq!(r, "https://example.com/read");
}

#[test]
fn link_unparsable_is_missing_link() {
    assert_eq!(canonical_link("not a url"), Err(ScrapeError::MissingLinkError));
    assert_eq!(canonical_link(""), Err(ScrapeError::MissingLinkError));
}

#[test]
fn canonicalize_twice_changes_nothing() {
    let once = canonical_link("https://example.com/a/b?utm_medium=x&id=7#frag").unwrap();
    let twice = canonical_link(once.as_str()).unwrap();
    assert_eq!(once, twice);
    let img_once = canonical_image(String::from("https://img.example/x.jpg?w=1"));
    let img_twice = canonical_image(img_once.clone());
    assert_eq!(img_once, img_twice);
}
