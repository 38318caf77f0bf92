use postscrape::ScrapeResult;
use postscrape::json::{to_json, json_line, json_array, parse_record};

fn rec(title: &str, img: &str, href: &str) -> ScrapeResult {
    ScrapeResult {
        title: String::from(title),
        img: String::from(img),
        href: String::from(href),
    }
}

#[test]
fn plain_record_written_exactly() {
    let r = rec("Title One", "https://img.example/x.jpg", "https://jnovels.com/vol12/");
    assert_eq!(
        to_json(&r),
        "{\"title\":\"Title One\",\"img\":\"https://img.example/x.jpg\",\"href\":\"https://jnovels.com/vol12/\"}"
    );
}

#[test]
fn json_line_is_newline_terminated() {
    let r = rec("a", "b", "c");
    assert_eq!(json_line(&r), "{\"title\":\"a\",\"img\":\"b\",\"href\":\"c\"}\n");
}

#[test]
fn json_array_joins_records() {
    let a = rec("a", "", "x");
    let b = rec("b", "", "y");
    assert_eq!(
        json_array(&vec![a, b]),
        "[{\"title\":\"a\",\"img\":\"\",\"href\":\"x\"},{\"title\":\"b\",\"img\":\"\",\"href\":\"y\"}]"
    );
    assert_eq!(json_array(&vec![]), "[]");
}

#[test]
fn round_trip_plain_fields() {
    let r = rec("Title One", "https://img.example/x.jpg", "https://jnovels.com/vol12/");
    let back = parse_record(&to_json(&r)).unwrap();
    assert_eq!(back.title, r.title);
    assert_eq!(back.img, r.img);
    assert_eq!(back.href, r.href);
}

#[test]
fn round_trip_with_escapes_and_unicode() {
    let r = rec(
        "He said \"hi\" \\ twice\nand\tleft\r",
        "https://img.example/caf\u{e9}.jpg",
        "https://jnovels.com/\u{1}x/",
    );
    let back = parse_record(&to_json(&r)).unwrap();
    assert_eq!(back.title, r.title);
    assert_eq!(back.img, r.img);
    assert_eq!(back.href, r.href);
}

#[test]
fn round_trip_empty_fields() {
    let r = rec("", "", "");
    let back = parse_record(&to_json(&r)).unwrap();
    assert_eq!(back.title, "");
    assert_eq!(back.img, "");
    assert_eq!(back.href, "");
}

#[test]
fn written_json_is_valid_for_other_parsers() {
    let r = rec("A \"quoted\" title\n", "https://img.example/x.jpg?y", "https://jnovels.com/v/");
    let text = to_json(&r);
    let v: serde_json::Value = serde_json::from_str(&text).unwrap();
    assert_eq!(v.get("title").unwrap().as_str().unwrap(), r.title);
    assert_eq!(v.get("img").unwrap().as_str().unwrap(), r.img);
    assert_eq!(v.get("href").unwrap().as_str().unwrap(), r.href);
}

#[test]
fn parse_rejects_malformed_text() {
    assert!(parse_record("").is_none());
    assert!(parse_record("{}").is_none());
    assert!(parse_record("{\"title\":\"a\",\"img\":\"b\"}").is_none());
    assert!(parse_record("{\"title\":\"a\",\"img\":\"b\",\"href\":\"c\"} ").is_none());
    assert!(parse_record("{\"title\":\"a\",\"img\":\"b\",\"href\":\"c").is_none());
    assert!(parse_record("{\"title\":\"a\\x\",\"img\":\"b\",\"href\":\"c\"}").is_none());
}

#[test]
fn control_characters_escaped_as_hex() {
    let r = rec("a\u{1}b", "", "x");
    let text = to_json(&r);
    assert!(text.contains("\\u0001"));
    let back = parse_record(&text).unwrap();
    assert_eq!(back.title, "a\u{1}b");
}
