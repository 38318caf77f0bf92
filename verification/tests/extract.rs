use postscrape::ScrapeError;
use postscrape::extract::{RawBlock, RawLink, block_record, records_from_blocks, parse_html};

fn link(text: &str, href: Option<&str>) -> RawLink {
    RawLink {
        texts: vec![String::from(text)],
        href: href.map(String::from),
    }
}

fn page(inner: &str) -> String {
    format!(
        "<html><body><div><div class=\"post-container\">{}</div></div></body></html>",
        inner
    )
}

const GOOD_ARTICLE: &str = "<article><header><h1><a href=\"https://jnovels.com/t/\">Title One</a></h1></header><div><a><img src=\"https://img.example/x.jpg?w=100\"></a></div><p><a href=\"https://jnovels.com/vol12/#frag\">Volume 12 release</a></p><p><a href=\"https://jnovels.com/read#more-55\">Read more</a></p></article>";

#[test]
fn volume_link_wins_over_more_link() {
    let b = RawBlock {
        title_texts: Some(vec![String::from("Title One")]),
        img_src: None,
        links: vec![
            link("Read more", Some("https://jnovels.com/read#more-55")),
            link("VOLUME 12", Some("https://jnovels.com/vol12/")),
        ],
    };
    let rec = block_record(&b).unwrap();
    assert_eq!(rec.href, "https://jnovels.com/vol12/");
}

#[test]
fn volume_match_is_case_insensitive() {
    let b = RawBlock {
        title_texts: None,
        img_src: None,
        links: vec![link("volume 3 omnibus", Some("https://jnovels.com/v3/"))],
    };
    let rec = block_record(&b).unwrap();
    assert_eq!(rec.href, "https://jnovels.com/v3/");
}

#[test]
fn more_link_chosen_when_no_volume_link() {
    let b = RawBlock {
        title_texts: None,
        img_src: None,
        links: vec![
            link("something else", Some("https://jnovels.com/a/")),
            link("Read more", Some("https://jnovels.com/read#MORE-55")),
        ],
    };
    let rec = block_record(&b).unwrap();
    assert_eq!(rec.href, "https://jnovels.com/read");
}

#[test]
fn no_qualifying_link_is_missing_link_error() {
    let b = RawBlock {
        title_texts: Some(vec![String::from("T")]),
        img_src: None,
        links: vec![link("something else", Some("https://jnovels.com/a/"))],
    };
    assert_eq!(block_record(&b).unwrap_err(), ScrapeError::MissingLinkError);
}

#[test]
fn chosen_link_without_href_is_missing_link_error() {
    let b = RawBlock {
        title_texts: None,
        img_src: None,
        links: vec![link("VOLUME 9", None)],
    };
    assert_eq!(block_record(&b).unwrap_err(), ScrapeError::MissingLinkError);
}

#[test]
fn chosen_link_unparsable_is_missing_link_error() {
    let b = RawBlock {
        title_texts: None,
        img_src: None,
        links: vec![link("VOLUME 9", Some("not a url"))],
    };
    assert_eq!(block_record(&b).unwrap_err(), ScrapeError::MissingLinkError);
}

#[test]
fn title_texts_joined_with_spaces() {
    let b = RawBlock {
        title_texts: Some(vec![String::from("Title"), String::from("Two")]),
        img_src: Some(String::from("https://img.example/y.png?h=5")),
        links: vec![link("VOLUME 1", Some("https://jnovels.com/v1/"))],
    };
    let rec = block_record(&b).unwrap();
    assert_eq!(rec.title, "Title Two");
    assert_eq!(rec.img, "https://img.example/y.png");
}

#[test]
fn absent_title_and_image_yield_empty_fields() {
    let b = RawBlock {
        title_texts: None,
        img_src: None,
        links: vec![link("VOLUME 1", Some("https://jnovels.com/v1/"))],
    };
    let rec = block_record(&b).unwrap();
    assert_eq!(rec.title, "");
    assert_eq!(rec.img, "");
}

#[test]
fn records_fail_on_first_bad_block() {
    let good = RawBlock {
        title_texts: None,
        img_src: None,
        links: vec![link("VOLUME 1", Some("https://jnovels.com/v1/"))],
    };
    let bad = RawBlock {
        title_texts: None,
        img_src: None,
        links: vec![],
    };
    let r = records_from_blocks(&vec![good.clone(), bad, good]);
    assert_eq!(r.unwrap_err(), ScrapeError::MissingLinkError);
}

#[test]
fn parse_html_extracts_full_record() {
    let html = page(GOOD_ARTICLE);
    let recs = parse_html(&html).unwrap();
    assert_eq!(recs.len(), 1);
    assert_eq!(recs[0].title, "Title One");
    assert_eq!(recs[0].img, "https://img.example/x.jpg");
    assert_eq!(recs[0].href, "https://jnovels.com/vol12/");
}

#[test]
fn parse_html_falls_back_to_more_link() {
    let html = page("<article><header><h1><a href=\"https://jnovels.com/t/\">T</a></h1></header><p><a href=\"https://jnovels.com/read#more-7\">Read more</a></p></article>");
    let recs = parse_html(&html).unwrap();
    assert_eq!(recs.len(), 1);
    assert_eq!(recs[0].href, "https://jnovels.com/read");
}

#[test]
fn parse_html_fails_without_qualifying_link() {
    let html = page("<article><header><h1><a href=\"https://jnovels.com/t/\">T</a></h1></header><p><a href=\"https://jnovels.com/other/\">elsewhere</a></p></article>");
    assert_eq!(parse_html(&html).unwrap_err(), ScrapeError::MissingLinkError);
}

#[test]
fn parse_html_of_empty_page_yields_no_records() {
    let recs = parse_html("<html><body></body></html>").unwrap();
    assert_eq!(recs.len(), 0);
}

#[test]
fn parse_html_keeps_document_order() {
    let article2 = "<article><header><h1><a href=\"https://jnovels.com/u/\">Title Two</a></h1></header><p><a href=\"https://jnovels.com/vol13/\">VOLUME 13</a></p></article>";
    let html = page(&format!("{}{}", GOOD_ARTICLE, article2));
    let recs = parse_html(&html).unwrap();
    assert_eq!(recs.len(), 2);
    assert_eq!(recs[0].title, "Title One");
    assert_eq!(recs[1].title, "Title Two");
}

#[test]
fn parse_html_is_deterministic() {
    let html = page(GOOD_ARTICLE);
    let a = parse_html(&html).unwrap();
    let b = parse_html(&html).unwrap();
    assert_eq!(a.len(), b.len());
    for k in 0..a.len() {
        assert_eq!(a[k].title, b[k].title);
        assert_eq!(a[k].img, b[k].img);
        assert_eq!(a[k].href, b[k].href);
    }
}
