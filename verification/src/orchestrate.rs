//! Orchestration: request planning and the two delivery policies.
//!
//! Collect mode is all-or-nothing: any failing page fails the whole
//! request and no partial output is kept. Stream mode delivers every
//! record of the pages before the first failure and then simply stops,
//! with no error marker.

use vstd::prelude::*;
use crate::ScrapeError;
use crate::ScrapeResult;
use crate::extract::{parse_html, parse_rel};
use crate::pages::{parse_max_pages, page_urls, spec_effective_pages, spec_base_url, spec_page_url};
use crate::strutil::str_eq;

verus! {

/// Concatenation of per-page record sequences, in page order.
pub open spec fn concat_all(pages: Seq<Seq<ScrapeResult>>) -> Seq<ScrapeResult>
    decreases pages.len(),
{
    if pages.len() == 0 {
        Seq::<ScrapeResult>::empty()
    } else {
        pages[0] + concat_all(pages.drop_first())
    }
}

/// Concatenating one more page appends its records.
pub proof fn lemma_concat_all_push(pages: Seq<Seq<ScrapeResult>>, x: Seq<ScrapeResult>)
    ensures
        concat_all(pages.push(x)) == concat_all(pages) + x,
    decreases pages.len(),
{
    if pages.len() == 0 {
        assert(pages.push(x) =~= seq![x]);
        assert(seq![x].drop_first() =~= Seq::<Seq<ScrapeResult>>::empty());
        assert(seq![x][0] == x);
        assert(concat_all(seq![x]) == x + concat_all(Seq::<Seq<ScrapeResult>>::empty()));
        assert(concat_all(Seq::<Seq<ScrapeResult>>::empty()) =~= Seq::<ScrapeResult>::empty());
        assert(x + Seq::<ScrapeResult>::empty() =~= x);
        assert(concat_all(pages) + x =~= x);
    } else {
        assert(pages.push(x).drop_first() =~= pages.drop_first().push(x));
        lemma_concat_all_push(pages.drop_first(), x);
        assert(concat_all(pages.push(x)) == pages[0] + (concat_all(pages.drop_first()) + x));
        assert(pages[0] + (concat_all(pages.drop_first()) + x) =~= (pages[0] + concat_all(
            pages.drop_first(),
        )) + x);
    }
}

/// The records of a page outcome sequence, page order kept.
pub open spec fn outcome_records(pages: Seq<Result<Vec<ScrapeResult>, ScrapeError>>) -> Seq<
    Seq<ScrapeResult>,
> {
    pages.map_values(|p: Result<Vec<ScrapeResult>, ScrapeError>| p->Ok_0@)
}

/// How collect mode maps page outcomes to one result: every page's
/// records concatenated in page order when all pages succeed, else the
/// first failing page's error and nothing else.
pub open spec fn collect_relation(
    pages: Seq<Result<Vec<ScrapeResult>, ScrapeError>>,
    r: Result<Vec<ScrapeResult>, ScrapeError>,
) -> bool {
    &&& ((r is Ok) <==> (forall|i: int| 0 <= i < pages.len() ==> (#[trigger] pages[i]) is Ok))
    &&& (r matches Ok(v) ==> v@ == concat_all(outcome_records(pages)))
    &&& (r matches Err(e) ==> exists|j: int|
        {
            &&& 0 <= j < pages.len()
            &&& #[trigger] pages[j] == Result::<Vec<ScrapeResult>, ScrapeError>::Err(e)
            &&& (forall|i: int| 0 <= i < j ==> (#[trigger] pages[i]) is Ok)
        })
}

/// Collect mode is all-or-nothing: one failing page fails the whole
/// request, and no record of any page is returned.
pub proof fn lemma_collect_all_or_nothing(
    pages: Seq<Result<Vec<ScrapeResult>, ScrapeError>>,
    r: Result<Vec<ScrapeResult>, ScrapeError>,
    j: int,
)
    requires
        collect_relation(pages, r),
        0 <= j < pages.len(),
        pages[j] is Err,
    ensures
        r is Err,
{
}

/// Combine per-page outcomes under the collect policy.
#[verifier::loop_isolation(false)]
pub fn combine_collect(pages: Vec<Result<Vec<ScrapeResult>, ScrapeError>>) -> (r: Result<
    Vec<ScrapeResult>,
    ScrapeError,
>)
    ensures
        collect_relation(pages@, r),
{
    let ghost orig = pages@;
    let mut rest = pages;
    let mut out: Vec<ScrapeResult> = Vec::new();
    let ghost mut i: int = 0;
    proof {
        assert(orig.subrange(0, 0) =~= Seq::<Result<Vec<ScrapeResult>, ScrapeError>>::empty());
        assert(outcome_records(orig.subrange(0, 0)) =~= Seq::<Seq<ScrapeResult>>::empty());
        assert(rest@ =~= orig.subrange(0, orig.len() as int));
    }
    while rest.len() > 0
        invariant
            0 <= i,
            i + rest@.len() == orig.len(),
            rest@ == orig.subrange(i, orig.len() as int),
            forall|j: int| 0 <= j < i ==> (#[trigger] orig[j]) is Ok,
            out@ == concat_all(outcome_records(orig.subrange(0, i))),
        decreases rest@.len(),
    {
        let page = rest.remove(0);
        proof {
            assert(orig.subrange(i, orig.len() as int)[0] == orig[i]);
        }
        match page {
            Ok(mut v) => {
                proof {
                    let pre = orig.subrange(0, i);
                    let cur = orig.subrange(0, i + 1);
                    assert(cur =~= pre.push(orig[i]));
                    assert(outcome_records(cur) =~= outcome_records(pre).push(v@));
                    lemma_concat_all_push(outcome_records(pre), v@);
                }
                out.append(&mut v);
            },
            Err(e) => {
                assert(orig[i] == Result::<Vec<ScrapeResult>, ScrapeError>::Err(e));
                return Err(e);
            },
        }
        proof {
            assert(orig.subrange(i, orig.len() as int).drop_first() =~= orig.subrange(
                i + 1,
                orig.len() as int,
            ));
            i = i + 1;
        }
    }
    proof {
        assert(orig.subrange(0, orig.len() as int) =~= orig);
    }
    Ok(out)
}

/// The number of leading pages a stream delivers: everything before the
/// first failing page.
pub open spec fn cut_len(pages: Seq<Result<Vec<ScrapeResult>, ScrapeError>>) -> int
    decreases pages.len(),
{
    if pages.len() == 0 {
        0
    } else if pages[0] is Err {
        0
    } else {
        1 + cut_len(pages.drop_first())
    }
}

/// The cut stands right at the first failing page: every record of the
/// pages before a failure is delivered, none after.
pub proof fn lemma_stream_failure_prefix(
    pages: Seq<Result<Vec<ScrapeResult>, ScrapeError>>,
    j: int,
)
    requires
        0 <= j <= pages.len(),
        forall|i: int| 0 <= i < j ==> (#[trigger] pages[i]) is Ok,
        j < pages.len() ==> pages[j] is Err,
    ensures
        cut_len(pages) == j,
    decreases pages.len(),
{
    if pages.len() > 0 {
        if j == 0 {
        } else {
            assert(pages[0] is Ok);
            assert(forall|i: int|
                0 <= i < j - 1 ==> (#[trigger] pages.drop_first()[i]) == pages[i + 1]);
            lemma_stream_failure_prefix(pages.drop_first(), j - 1);
        }
    }
}

/// What a whole stream run delivers: the records of the pages before the
/// first failure, concatenated in page order.
pub open spec fn stream_delivery(pages: Seq<Result<Vec<ScrapeResult>, ScrapeError>>) -> Seq<
    ScrapeResult,
> {
    concat_all(outcome_records(pages.subrange(0, cut_len(pages))))
}

/// Combine per-page outcomes under the stream policy: deliver records in
/// page order and stop quietly at the first failure.
#[verifier::loop_isolation(false)]
pub fn combine_stream(pages: Vec<Result<Vec<ScrapeResult>, ScrapeError>>) -> (r: Vec<ScrapeResult>)
    ensures
        r@ == stream_delivery(pages@),
{
    let ghost orig = pages@;
    let mut rest = pages;
    let mut out: Vec<ScrapeResult> = Vec::new();
    let ghost mut i: int = 0;
    proof {
        assert(outcome_records(orig.subrange(0, 0)) =~= Seq::<Seq<ScrapeResult>>::empty());
        assert(rest@ =~= orig.subrange(0, orig.len() as int));
    }
    while rest.len() > 0
        invariant
            0 <= i,
            i + rest@.len() == orig.len(),
            rest@ == orig.subrange(i, orig.len() as int),
            forall|j: int| 0 <= j < i ==> (#[trigger] orig[j]) is Ok,
            out@ == concat_all(outcome_records(orig.subrange(0, i))),
        decreases rest@.len(),
    {
        let page = rest.remove(0);
        proof {
            assert(orig.subrange(i, orig.len() as int)[0] == orig[i]);
        }
        match page {
            Ok(mut v) => {
                proof {
                    let pre = orig.subrange(0, i);
                    let cur = orig.subrange(0, i + 1);
                    assert(cur =~= pre.push(orig[i]));
                    assert(outcome_records(cur) =~= outcome_records(pre).push(v@));
                    lemma_concat_all_push(outcome_records(pre), v@);
                }
                out.append(&mut v);
            },
            Err(_) => {
                proof {
                    lemma_stream_failure_prefix(orig, i);
                }
                return out;
            },
        }
        proof {
            assert(orig.subrange(i, orig.len() as int).drop_first() =~= orig.subrange(
                i + 1,
                orig.len() as int,
            ));
            i = i + 1;
        }
    }
    proof {
        lemma_stream_failure_prefix(orig, orig.len() as int);
    }
    out
}

/// The text a fetched page handed over; empty where the fetch failed.
pub open spec fn page_html(p: Option<String>) -> Seq<char> {
    match p {
        Option::Some(h) => h@,
        Option::None => Seq::<char>::empty(),
    }
}

/// Run collect mode over the fetched pages: any failed fetch fails the
/// whole request; otherwise each page is extracted in page order and the
/// records are concatenated, all-or-nothing.
#[verifier::loop_isolation(false)]
pub fn collect_posts(fetched: &Vec<Option<String>>) -> (r: Result<Vec<ScrapeResult>, ScrapeError>)
    ensures
        (exists|i: int| 0 <= i < fetched@.len() && (#[trigger] fetched@[i]) is None) ==> r
            == Result::<Vec<ScrapeResult>, ScrapeError>::Err(ScrapeError::FetchError),
        (forall|i: int| 0 <= i < fetched@.len() ==> (#[trigger] fetched@[i]) is Some) ==> exists|
            outcomes: Seq<Result<Vec<ScrapeResult>, ScrapeError>>,
        |
            {
                &&& outcomes.len() == fetched@.len()
                &&& (forall|i: int| 0 <= i < outcomes.len() ==> parse_rel(
                    page_html(fetched@[i]),
                    #[trigger] outcomes[i],
                ))
                &&& collect_relation(outcomes, r)
            },
{
    let mut i: usize = 0;
    while i < fetched.len()
        invariant
            i <= fetched@.len(),
            forall|j: int| 0 <= j < i ==> (#[trigger] fetched@[j]) is Some,
        decreases fetched@.len() - i,
    {
        if fetched[i].is_none() {
            return Err(ScrapeError::FetchError);
        }
        i += 1;
    }
    let mut outcomes: Vec<Result<Vec<ScrapeResult>, ScrapeError>> = Vec::new();
    let mut k: usize = 0;
    while k < fetched.len()
        invariant
            k <= fetched@.len(),
            forall|j: int| 0 <= j < fetched@.len() ==> (#[trigger] fetched@[j]) is Some,
            outcomes@.len() == k,
            forall|j: int|
                0 <= j < k ==> parse_rel(page_html(fetched@[j]), #[trigger] outcomes@[j]),
        decreases fetched@.len() - k,
    {
        let html = match &fetched[k] {
            Option::Some(h) => h,
            Option::None => {
                return Err(ScrapeError::FetchError);
            },
        };
        outcomes.push(parse_html(html.as_str()));
        k += 1;
    }
    let ghost outs = outcomes@;
    let r = combine_collect(outcomes);
    proof {
        assert(outs.len() == fetched@.len() && (forall|i: int|
            0 <= i < outs.len() ==> parse_rel(page_html(fetched@[i]), #[trigger] outs[i]))
            && collect_relation(outs, r));
    }
    r
}

/// Run stream mode over the fetched pages: deliver each page's records
/// in page order and stop quietly at the first failed fetch or
/// extraction.
#[verifier::loop_isolation(false)]
pub fn stream_posts(fetched: &Vec<Option<String>>) -> (r: Vec<ScrapeResult>)
    ensures
        exists|outcomes: Seq<Result<Vec<ScrapeResult>, ScrapeError>>|
            {
                &&& outcomes.len() == fetched@.len()
                &&& (forall|i: int|
                    0 <= i < outcomes.len() ==> if (#[trigger] fetched@[i]) is None {
                        outcomes[i] == Result::<Vec<ScrapeResult>, ScrapeError>::Err(
                            ScrapeError::FetchError,
                        )
                    } else {
                        parse_rel(page_html(fetched@[i]), outcomes[i])
                    })
                &&& r@ == stream_delivery(outcomes)
            },
{
    let mut outcomes: Vec<Result<Vec<ScrapeResult>, ScrapeError>> = Vec::new();
    let mut k: usize = 0;
    while k < fetched.len()
        invariant
            k <= fetched@.len(),
            outcomes@.len() == k,
            forall|j: int|
                0 <= j < k ==> if (#[trigger] fetched@[j]) is None {
                    outcomes@[j] == Result::<Vec<ScrapeResult>, ScrapeError>::Err(
                        ScrapeError::FetchError,
                    )
                } else {
                    parse_rel(page_html(fetched@[j]), outcomes@[j])
                },
        decreases fetched@.len() - k,
    {
        match &fetched[k] {
            Option::Some(h) => {
                outcomes.push(parse_html(h.as_str()));
            },
            Option::None => {
                outcomes.push(Err(ScrapeError::FetchError));
            },
        }
        k += 1;
    }
    let ghost outs = outcomes@;
    combine_stream(outcomes)
}

/// The plan for one inbound request.
pub enum RequestPlan {
    /// A response-cache hit: serve the cached response, do no work.
    ServeCached,
    /// No route matches the path.
    NotFound,
    /// Fetch these addresses, then deliver one aggregated result.
    Collect(Vec<String>),
    /// Fetch these addresses in order, streaming records as produced.
    Stream(Vec<String>),
}

/// The addresses a plan fetches.
pub open spec fn plan_fetch_urls(p: RequestPlan) -> Seq<String> {
    match p {
        RequestPlan::Collect(u) => u@,
        RequestPlan::Stream(u) => u@,
        _ => Seq::<String>::empty(),
    }
}

/// The page addresses for a raw `maxpage` value: as many as the
/// effective page count, root listing first.
pub open spec fn urls_for(urls: Vec<String>, raw: Option<Seq<char>>) -> bool {
    &&& urls.deep_view().len() == spec_effective_pages(raw)
    &&& urls.deep_view()[0] == spec_base_url()
    &&& (forall|i: int|
        1 <= i < urls.deep_view().len() ==> urls.deep_view()[i] == spec_page_url(i))
}

/// How a request is planned: a cache hit is served as it stands; the two
/// routes fetch the pages their `maxpage` value demands; anything else
/// is not found.
pub open spec fn plan_relation(
    cached: bool,
    path: Seq<char>,
    raw: Option<Seq<char>>,
    r: RequestPlan,
) -> bool {
    &&& (cached ==> r == RequestPlan::ServeCached)
    &&& (!cached && path == "/get"@ ==> (r matches RequestPlan::Collect(u) && urls_for(u, raw)))
    &&& (!cached && path == "/stream"@ ==> (r matches RequestPlan::Stream(u) && urls_for(u, raw)))
    &&& (!cached && path != "/get"@ && path != "/stream"@ ==> r == RequestPlan::NotFound)
}

/// A response-cache hit does no upstream work: the plan of a request
/// answered from the cache fetches no addresses at all.
pub proof fn lemma_cache_hit_no_fetch(
    cached: bool,
    path: Seq<char>,
    raw: Option<Seq<char>>,
    r: RequestPlan,
)
    requires
        plan_relation(cached, path, raw, r),
        cached,
    ensures
        plan_fetch_urls(r).len() == 0,
{
}

/// Plan one inbound request from the cache lookup, the path, and the raw
/// `maxpage` query value.
pub fn plan_request(cached: bool, path: &str, maxpage: Option<&str>) -> (r: RequestPlan)
    ensures
        plan_relation(
            cached,
            path@,
            match maxpage {
                Option::None => Option::None,
                Option::Some(s) => Option::Some(s@),
            },
            r,
        ),
{
    proof {
        reveal_strlit("/get");
        reveal_strlit("/stream");
        assert("/get"@.len() == 4);
        assert("/stream"@.len() == 7);
    }
    if cached {
        return RequestPlan::ServeCached;
    }
    if str_eq(path, "/get") {
        let k = parse_max_pages(maxpage);
        return RequestPlan::Collect(page_urls(k));
    }
    if str_eq(path, "/stream") {
        let k = parse_max_pages(maxpage);
        return RequestPlan::Stream(page_urls(k));
    }
    RequestPlan::NotFound
}

} // verus!
