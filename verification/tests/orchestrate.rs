use postscrape::ScrapeError;
use postscrape::ScrapeResult;
use postscrape::orchestrate::{
    collect_posts, stream_posts, combine_collect, combine_stream, plan_request, RequestPlan,
};

fn page(inner: &str) -> String {
    format!(
        "<html><body><div><div class=\"post-container\">{}</div></div></body></html>",
        inner
    )
}

fn good_page(n: u32) -> String {
    page(&format!(
        "<article><header><h1><a href=\"https://jnovels.com/t/\">Title {n}</a></h1></header><p><a href=\"https://jnovels.com/vol{n}/\">VOLUME {n}</a></p></article>",
        n = n
    ))
}

fn bad_page() -> String {
    page("<article><header><h1><a href=\"https://jnovels.com/t/\">Broken</a></h1></header><p><a href=\"https://jnovels.com/other/\">elsewhere</a></p></article>")
}

fn rec(title: &str) -> ScrapeResult {
    ScrapeResult {
        title: String::from(title),
        img: String::new(),
        href: String::from("https://jnovels.com/x/"),
    }
}

#[test]
fn collect_fails_whole_request_on_bad_middle_page() {
    let fetched = vec![Some(good_page(1)), Some(bad_page()), Some(good_page(3))];
    let r = collect_posts(&fetched);
    assert_eq!(r.unwrap_err(), ScrapeError::MissingLinkError);
}

#[test]
fn collect_fails_on_any_fetch_failure() {
    let fetched = vec![Some(good_page(1)), None, Some(good_page(3))];
    assert_eq!(collect_posts(&fetched).unwrap_err(), ScrapeError::FetchError);
}

#[test]
fn collect_concatenates_pages_in_order() {
    let fetched = vec![Some(good_page(1)), Some(good_page(2))];
    let recs = collect_posts(&fetched).unwrap();
    assert_eq!(recs.len(), 2);
    assert_eq!(recs[0].title, "Title 1");
    assert_eq!(recs[1].title, "Title 2");
}

#[test]
fn stream_delivers_prefix_before_failure() {
    let fetched = vec![Some(good_page(1)), Some(bad_page()), Some(good_page(3))];
    let recs = stream_posts(&fetched);
    assert_eq!(recs.len(), 1);
    assert_eq!(recs[0].title, "Title 1");
}

#[test]
fn stream_stops_at_fetch_failure() {
    let fetched = vec![Some(good_page(1)), None, Some(good_page(3))];
    let recs = stream_posts(&fetched);
    assert_eq!(recs.len(), 1);
    assert_eq!(recs[0].title, "Title 1");
}

#[test]
fn combine_collect_is_all_or_nothing() {
    let pages = vec![
        Ok(vec![rec("a")]),
        Err(ScrapeError::MissingLinkError),
        Ok(vec![rec("c")]),
    ];
    assert_eq!(
        combine_collect(pages).unwrap_err(),
        ScrapeError::MissingLinkError
    );
}

#[test]
fn combine_collect_joins_all_records() {
    let pages = vec![Ok(vec![rec("a"), rec("b")]), Ok(vec![rec("c")])];
    let out = combine_collect(pages).unwrap();
    let titles: Vec<&str> = out.iter().map(|r| r.title.as_str()).collect();
    assert_eq!(titles, ["a", "b", "c"]);
}

#[test]
fn combine_stream_truncates_quietly() {
    let pages = vec![
        Ok(vec![rec("a"), rec("b")]),
        Err(ScrapeError::FetchError),
        Ok(vec![rec("c")]),
    ];
    let out = combine_stream(pages);
    let titles: Vec<&str> = out.iter().map(|r| r.title.as_str()).collect();
    assert_eq!(titles, ["a", "b"]);
}

#[test]
fn plan_cache_hit_fetches_nothing() {
    match plan_request(true, "/get", Some("5")) {
        RequestPlan::ServeCached => {}
        _ => panic!("a cache hit must be served as it stands"),
    }
}

#[test]
fn second_identical_request_within_ttl_does_no_upstream_work() {
    let mut fetch_calls = 0usize;
    for cached in [false, true] {
        match plan_request(cached, "/get", Some("3")) {
            RequestPlan::Collect(urls) => fetch_calls += urls.len(),
            RequestPlan::ServeCached => {}
            _ => panic!("unexpected plan"),
        }
    }
    assert_eq!(fetch_calls, 3);
}

#[test]
fn plan_routes_get_and_stream() {
    match plan_request(false, "/get", Some("2")) {
        RequestPlan::Collect(urls) => {
            assert_eq!(urls.len(), 2);
            assert_eq!(urls[0], "https://jnovels.com/?s=epub");
            assert_eq!(urls[1], "https://jnovels.com/page/1/?s=epub");
        }
        _ => panic!("the get route must collect"),
    }
    match plan_request(false, "/stream", None) {
        RequestPlan::Stream(urls) => assert_eq!(urls.len(), 1),
        _ => panic!("the stream route must stream"),
    }
}

#[test]
fn plan_unknown_path_is_not_found() {
    match plan_request(false, "/", None) {
        RequestPlan::NotFound => {}
        _ => panic!("unknown paths must not be routed"),
    }
    match plan_request(false, "/getx", Some("2")) {
        RequestPlan::NotFound => {}
        _ => panic!("unknown paths must not be routed"),
    }
}
