//! Structural post extraction.
//!
//! A listing page's HTML is reduced, through the HTML parser, to the raw
//! material of each post block: the title element's text nodes, the first
//! image's address, and each paragraph-link's text and address. That raw
//! material is a named function of the page text and the fixed structural
//! queries, so the whole extraction is pinned: joining the title,
//! canonicalizing the image, the fallback link selection and the link
//! canonicalization are verified, and extraction is provably
//! deterministic.

use vstd::prelude::*;
use crate::ScrapeError;
use crate::ScrapeResult;
use crate::canon::{
    canonical_image, canonical_link, spec_canonical_image, spec_link_error, url_ok, clean_ok,
    without_fragment, cleaned_of,
};
use crate::strutil::{seq_join, spec_starts_with, spec_contains, str_starts_with, str_contains,
    join_strings};

verus! {

/// Whether `scraper::Selector::parse` accepts the selector text.
pub uninterp spec fn selector_ok(s: Seq<char>) -> bool;

/// What `str::to_uppercase` returns: a function of the characters alone.
pub uninterp spec fn upper_of(s: Seq<char>) -> Seq<char>;

/// What `str::to_lowercase` returns: a function of the characters alone.
pub uninterp spec fn lower_of(s: Seq<char>) -> Seq<char>;

/// One paragraph-link of a post block: its text nodes and its address.
#[derive(Debug, Clone)]
pub struct RawLink {
    /// The link's descendant text nodes, in document order.
    pub texts: Vec<String>,
    /// The link's address attribute, when present.
    pub href: Option<String>,
}

/// The raw material of one post block.
#[derive(Debug, Clone)]
pub struct RawBlock {
    /// The first title element's text nodes; absent when the block has no
    /// title element.
    pub title_texts: Option<Vec<String>>,
    /// The first image element's address attribute, when present.
    pub img_src: Option<String>,
    /// The block's paragraph-links, in document order.
    pub links: Vec<RawLink>,
}

/// The mathematical image of one paragraph-link.
pub struct LinkView {
    /// The link's text nodes.
    pub texts: Seq<Seq<char>>,
    /// The link's address, when present.
    pub href: Option<Seq<char>>,
}

/// The mathematical image of one post block's raw material.
pub struct BlockView {
    /// The first title element's text nodes, when the element exists.
    pub title_texts: Option<Seq<Seq<char>>>,
    /// The first image element's address, when present.
    pub img_src: Option<Seq<char>>,
    /// The paragraph-links, in document order.
    pub links: Seq<LinkView>,
}

impl DeepView for RawLink {
    type V = LinkView;

    open spec fn deep_view(&self) -> LinkView {
        LinkView { texts: self.texts.deep_view(), href: self.href.deep_view() }
    }
}

impl DeepView for RawBlock {
    type V = BlockView;

    open spec fn deep_view(&self) -> BlockView {
        BlockView {
            title_texts: self.title_texts.deep_view(),
            img_src: self.img_src.deep_view(),
            links: self.links.deep_view(),
        }
    }
}

/// How many post blocks the article query finds on the page: a
/// function of the page text and the query alone.
pub uninterp spec fn n_articles_of(html: Seq<char>, article_sel: Seq<char>) -> int;

/// The first title element's text nodes within post block `i`, when the
/// element exists.
pub uninterp spec fn title_texts_of(
    html: Seq<char>,
    article_sel: Seq<char>,
    title_sel: Seq<char>,
    i: int,
) -> Option<Seq<Seq<char>>>;

/// The named attribute of the first image element within post block `i`,
/// when present.
pub uninterp spec fn img_src_of(
    html: Seq<char>,
    article_sel: Seq<char>,
    img_sel: Seq<char>,
    attr: Seq<char>,
    i: int,
) -> Option<Seq<char>>;

/// How many paragraph-links post block `i` holds.
pub uninterp spec fn n_links_of(
    html: Seq<char>,
    article_sel: Seq<char>,
    link_sel: Seq<char>,
    i: int,
) -> int;

/// The text nodes of paragraph-link `j` of post block `i`.
pub uninterp spec fn link_texts_of(
    html: Seq<char>,
    article_sel: Seq<char>,
    link_sel: Seq<char>,
    i: int,
    j: int,
) -> Seq<Seq<char>>;

/// The named attribute of paragraph-link `j` of post block `i`, when
/// present.
pub uninterp spec fn link_href_of(
    html: Seq<char>,
    article_sel: Seq<char>,
    link_sel: Seq<char>,
    attr: Seq<char>,
    i: int,
    j: int,
) -> Option<Seq<char>>;

/// Relies on `scraper::Selector::parse`: success depends on the selector
/// text alone.
#[verifier::external_body]
fn selector_check(s: &str) -> (r: bool)
    ensures
        r == selector_ok(s@),
{
    scraper::Selector::parse(s).is_ok()
}

/// Relies on scraper's `Html::parse_document` and `Html::select`:
/// parsing recovers from any input, and the matched elements are a
/// function of the document and the query. The `requires` keeps the
/// selector parse from failing.
#[verifier::external_body]
fn article_count(html: &str, sa: &str) -> (r: usize)
    requires
        selector_ok(sa@),
    ensures
        r as int == n_articles_of(html@, sa@),
{
    let a = scraper::Selector::parse(sa).unwrap();
    scraper::Html::parse_document(html).select(&a).count()
}

/// Relies on scraper's `Html::parse_document`, `Html::select`,
/// `ElementRef::select` and `ElementRef::text`: all deterministic in the
/// document and the queries, text nodes in document order.
#[verifier::external_body]
fn title_texts_at(html: &str, sa: &str, st: &str, i: usize) -> (r: Option<Vec<String>>)
    requires
        selector_ok(sa@),
        selector_ok(st@),
    ensures
        r.deep_view() == title_texts_of(html@, sa@, st@, i as int),
{
    let a = scraper::Selector::parse(sa).unwrap();
    let t = scraper::Selector::parse(st).unwrap();
    let doc = scraper::Html::parse_document(html);
    doc.select(&a).nth(i).and_then(|p| p.select(&t).next()).map(
        |e| e.text().map(|x| x.to_string()).collect(),
    )
}

/// Relies on scraper's `Html::parse_document`, `Html::select`,
/// `ElementRef::select` and `ElementRef::attr`: all deterministic in the
/// document, the queries and the attribute name.
#[verifier::external_body]
fn img_src_at(html: &str, sa: &str, si: &str, attr: &str, i: usize) -> (r: Option<String>)
    requires
        selector_ok(sa@),
        selector_ok(si@),
    ensures
        r.deep_view() == img_src_of(html@, sa@, si@, attr@, i as int),
{
    let a = scraper::Selector::parse(sa).unwrap();
    let s = scraper::Selector::parse(si).unwrap();
    let doc = scraper::Html::parse_document(html);
    doc.select(&a).nth(i).and_then(|p| p.select(&s).next()).and_then(|e| e.attr(attr)).map(
        |v| v.to_string(),
    )
}

/// Relies on scraper's `Html::parse_document`, `Html::select` and
/// `ElementRef::select`: the number of matches is a function of the
/// document and the queries.
#[verifier::external_body]
fn link_count_at(html: &str, sa: &str, sl: &str, i: usize) -> (r: usize)
    requires
        selector_ok(sa@),
        selector_ok(sl@),
    ensures
        r as int == n_links_of(html@, sa@, sl@, i as int),
{
    let a = scraper::Selector::parse(sa).unwrap();
    let l = scraper::Selector::parse(sl).unwrap();
    let doc = scraper::Html::parse_document(html);
    doc.select(&a).nth(i).map(|p| p.select(&l).count()).unwrap_or(0)
}

/// Relies on scraper's `Html::parse_document`, `Html::select`,
/// `ElementRef::select` and `ElementRef::text`: text nodes come in
/// document order, deterministic in the document and the queries.
#[verifier::external_body]
fn link_texts_at(html: &str, sa: &str, sl: &str, i: usize, j: usize) -> (r: Vec<String>)
    requires
        selector_ok(sa@),
        selector_ok(sl@),
    ensures
        r.deep_view() == link_texts_of(html@, sa@, sl@, i as int, j as int),
{
    let a = scraper::Selector::parse(sa).unwrap();
    let l = scraper::Selector::parse(sl).unwrap();
    let doc = scraper::Html::parse_document(html);
    doc.select(&a).nth(i).and_then(|p| p.select(&l).nth(j)).map(
        |e| e.text().map(|x| x.to_string()).collect(),
    ).unwrap_or(Vec::new())
}

/// Relies on scraper's `Html::parse_document`, `Html::select`,
/// `ElementRef::select` and `ElementRef::attr`: deterministic in the
/// document, the queries and the attribute name.
#[verifier::external_body]
fn link_href_at(html: &str, sa: &str, sl: &str, attr: &str, i: usize, j: usize) -> (r: Option<
    String,
>)
    requires
        selector_ok(sa@),
        selector_ok(sl@),
    ensures
        r.deep_view() == link_href_of(html@, sa@, sl@, attr@, i as int, j as int),
{
    let a = scraper::Selector::parse(sa).unwrap();
    let l = scraper::Selector::parse(sl).unwrap();
    let doc = scraper::Html::parse_document(html);
    doc.select(&a).nth(i).and_then(|p| p.select(&l).nth(j)).and_then(|e| e.attr(attr)).map(
        |v| v.to_string(),
    )
}

/// Relies on `str::to_uppercase`: the result depends on the characters
/// alone.
#[verifier::external_body]
fn to_upper(s: &str) -> (r: String)
    ensures
        r@ == upper_of(s@),
{
    s.to_uppercase()
}

/// Relies on `str::to_lowercase`: the result depends on the characters
/// alone.
#[verifier::external_body]
fn to_lower(s: &str) -> (r: String)
    ensures
        r@ == lower_of(s@),
{
    s.to_lowercase()
}

/// A link's visible text: its text nodes run together.
pub open spec fn spec_link_text(l: LinkView) -> Seq<char> {
    seq_join(l.texts, ""@)
}

/// The link announces a volume: its text, upper-cased, starts with the
/// volume marker.
pub open spec fn is_volume_link(l: LinkView) -> bool {
    spec_starts_with(upper_of(spec_link_text(l)), "VOLUME "@)
}

/// The link is a read-more link: its address, lower-cased, holds the
/// more-anchor marker.
pub open spec fn is_more_link(l: LinkView) -> bool {
    match l.href {
        Option::Some(h) => spec_contains(lower_of(h), "#more-"@),
        Option::None => false,
    }
}

/// The first volume link, in document order.
pub open spec fn first_volume(links: Seq<LinkView>) -> Option<LinkView>
    decreases links.len(),
{
    if links.len() == 0 {
        Option::None
    } else if is_volume_link(links[0]) {
        Option::Some(links[0])
    } else {
        first_volume(links.drop_first())
    }
}

/// The first read-more link, in document order.
pub open spec fn first_more(links: Seq<LinkView>) -> Option<LinkView>
    decreases links.len(),
{
    if links.len() == 0 {
        Option::None
    } else if is_more_link(links[0]) {
        Option::Some(links[0])
    } else {
        first_more(links.drop_first())
    }
}

/// The qualifying link of a post block: the first volume link when one
/// exists, else the first read-more link.
pub open spec fn spec_chosen_link(links: Seq<LinkView>) -> Option<LinkView> {
    match first_volume(links) {
        Option::Some(l) => Option::Some(l),
        Option::None => first_more(links),
    }
}

/// The address the chosen link contributes: absent when no link
/// qualifies or the chosen link carries no address.
pub open spec fn spec_href_source(b: BlockView) -> Option<Seq<char>> {
    match spec_chosen_link(b.links) {
        Option::None => Option::None,
        Option::Some(l) => l.href,
    }
}

/// The block's title: the title element's text nodes joined by single
/// spaces; empty when the element is absent.
pub open spec fn spec_title(b: BlockView) -> Seq<char> {
    match b.title_texts {
        Option::Some(ts) => seq_join(ts, " "@),
        Option::None => Seq::<char>::empty(),
    }
}

/// The block's raw image address; empty when absent.
pub open spec fn spec_img(b: BlockView) -> Seq<char> {
    match b.img_src {
        Option::Some(s) => s,
        Option::None => Seq::<char>::empty(),
    }
}

/// The block yields a record: it has a qualifying link with an address
/// that parses and cleans.
pub open spec fn block_link_ok(b: BlockView) -> bool {
    match spec_href_source(b) {
        Option::Some(h) => url_ok(h) && clean_ok(without_fragment(h)),
        Option::None => false,
    }
}

/// The record a successful block yields.
pub open spec fn spec_block_record(b: BlockView, rec: ScrapeResult) -> bool {
    &&& rec.title@ == spec_title(b)
    &&& rec.img@ == spec_canonical_image(spec_img(b))
    &&& (match spec_href_source(b) {
        Option::Some(h) => rec.href@ == cleaned_of(without_fragment(h)),
        Option::None => false,
    })
}

/// The error a failing block yields: a block without a qualifying,
/// addressed link fails as a missing link; one whose address fails to
/// canonicalize fails as the canonicalizer demands.
pub open spec fn spec_block_error(b: BlockView) -> ScrapeError {
    match spec_href_source(b) {
        Option::None => ScrapeError::MissingLinkError,
        Option::Some(h) => spec_link_error(h),
    }
}

/// Find the first volume link, scanning in document order.
#[verifier::loop_isolation(false)]
fn find_volume(links: &Vec<RawLink>) -> (r: Option<usize>)
    ensures
        match r {
            Option::Some(i) => i < links@.len() && first_volume(links.deep_view())
                == Option::Some(links@[i as int].deep_view()),
            Option::None => first_volume(links.deep_view()) is None,
        },
{
    let ghost dv = links.deep_view();
    let mut i: usize = 0;
    proof {
        assert(dv.skip(0) =~= dv);
    }
    while i < links.len()
        invariant
            i <= links@.len(),
            dv == links.deep_view(),
            first_volume(dv) == first_volume(dv.skip(i as int)),
        decreases links@.len() - i,
    {
        proof {
            assert(dv.skip(i as int).len() > 0);
            assert(dv.skip(i as int)[0] == dv[i as int]);
            assert(dv.skip(i as int).drop_first() =~= dv.skip(i + 1));
        }
        let l = &links[i];
        let text = join_strings(&l.texts, "");
        let upper = to_upper(text.as_str());
        if str_starts_with(upper.as_str(), "VOLUME ") {
            assert(is_volume_link(dv[i as int]));
            return Some(i);
        }
        assert(!is_volume_link(dv[i as int]));
        i += 1;
    }
    proof {
        assert(dv.skip(dv.len() as int) =~= Seq::<LinkView>::empty());
    }
    None
}

/// Find the first read-more link, scanning in document order.
#[verifier::loop_isolation(false)]
fn find_more(links: &Vec<RawLink>) -> (r: Option<usize>)
    ensures
        match r {
            Option::Some(i) => i < links@.len() && first_more(links.deep_view()) == Option::Some(
                links@[i as int].deep_view(),
            ),
            Option::None => first_more(links.deep_view()) is None,
        },
{
    let ghost dv = links.deep_view();
    let mut i: usize = 0;
    proof {
        assert(dv.skip(0) =~= dv);
    }
    while i < links.len()
        invariant
            i <= links@.len(),
            dv == links.deep_view(),
            first_more(dv) == first_more(dv.skip(i as int)),
        decreases links@.len() - i,
    {
        proof {
            assert(dv.skip(i as int).len() > 0);
            assert(dv.skip(i as int)[0] == dv[i as int]);
            assert(dv.skip(i as int).drop_first() =~= dv.skip(i + 1));
        }
        let l = &links[i];
        let hit = match &l.href {
            Option::Some(h) => {
                let lower = to_lower(h.as_str());
                str_contains(lower.as_str(), "#more-")
            },
            Option::None => false,
        };
        if hit {
            assert(is_more_link(dv[i as int]));
            return Some(i);
        }
        assert(!is_more_link(dv[i as int]));
        i += 1;
    }
    proof {
        assert(dv.skip(dv.len() as int) =~= Seq::<LinkView>::empty());
    }
    None
}

/// Turn one post block into its record, or fail as the block demands.
pub fn block_record(b: &RawBlock) -> (r: Result<ScrapeResult, ScrapeError>)
    ensures
        (r is Ok) == block_link_ok(b.deep_view()),
        r matches Ok(rec) ==> spec_block_record(b.deep_view(), rec),
        r matches Err(e) ==> e == spec_block_error(b.deep_view()),
{
    let title = match &b.title_texts {
        Option::Some(ts) => join_strings(ts, " "),
        Option::None => String::new(),
    };
    let img_raw = match &b.img_src {
        Option::Some(s) => s.clone(),
        Option::None => String::new(),
    };
    let img = canonical_image(img_raw);
    let chosen: usize = match find_volume(&b.links) {
        Option::Some(i) => i,
        Option::None => match find_more(&b.links) {
            Option::Some(i) => i,
            Option::None => {
                return Err(ScrapeError::MissingLinkError);
            },
        },
    };
    let href_src = match &b.links[chosen].href {
        Option::Some(h) => h,
        Option::None => {
            return Err(ScrapeError::MissingLinkError);
        },
    };
    match canonical_link(href_src.as_str()) {
        Ok(href) => Ok(ScrapeResult { title, img, href }),
        Err(e) => Err(e),
    }
}

/// A failure stands at `j`: the block there yields no record, every
/// block before it does.
pub open spec fn first_failure_at(blocks: Seq<BlockView>, j: int) -> bool {
    &&& 0 <= j < blocks.len()
    &&& !block_link_ok(blocks[j])
    &&& (forall|i: int| 0 <= i < j ==> block_link_ok(#[trigger] blocks[i]))
}

/// How a sequence of post blocks maps to an extraction outcome: all
/// blocks succeed and yield their records in order, or the first failing
/// block's error is the whole outcome and nothing is returned.
pub open spec fn records_relation(
    blocks: Seq<BlockView>,
    r: Result<Vec<ScrapeResult>, ScrapeError>,
) -> bool {
    &&& ((r is Ok) <==> (forall|i: int|
        0 <= i < blocks.len() ==> block_link_ok(#[trigger] blocks[i])))
    &&& (r matches Ok(v) ==> v@.len() == blocks.len() && (forall|i: int|
        0 <= i < blocks.len() ==> spec_block_record(#[trigger] blocks[i], v@[i])))
    &&& (r matches Err(e) ==> exists|j: int|
        #[trigger] first_failure_at(blocks, j) && e == spec_block_error(blocks[j]))
}

/// Turn the post blocks of one page into records, in document order,
/// failing on the first block without a usable link.
#[verifier::loop_isolation(false)]
pub fn records_from_blocks(blocks: &Vec<RawBlock>) -> (r: Result<Vec<ScrapeResult>, ScrapeError>)
    ensures
        records_relation(blocks.deep_view(), r),
{
    let ghost dv = blocks.deep_view();
    let mut out: Vec<ScrapeResult> = Vec::new();
    let mut i: usize = 0;
    while i < blocks.len()
        invariant
            i <= blocks@.len(),
            dv == blocks.deep_view(),
            out@.len() == i,
            forall|j: int| 0 <= j < i ==> block_link_ok(#[trigger] dv[j]),
            forall|j: int| 0 <= j < i ==> spec_block_record(#[trigger] dv[j], out@[j]),
        decreases blocks@.len() - i,
    {
        match block_record(&blocks[i]) {
            Ok(rec) => {
                out.push(rec);
            },
            Err(e) => {
                assert(first_failure_at(dv, i as int));
                return Err(e);
            },
        }
        i += 1;
    }
    Ok(out)
}

/// The four fixed structural queries all parse.
pub open spec fn spec_selectors_ok() -> bool {
    &&& selector_ok("div .post-container > article"@)
    &&& selector_ok("header > h1 > a"@)
    &&& selector_ok("div > a > img"@)
    &&& selector_ok("p > a"@)
}

/// The raw material of post block `i` of the page, under the fixed
/// structural queries.
pub open spec fn spec_block_at(html: Seq<char>, i: int) -> BlockView {
    BlockView {
        title_texts: title_texts_of(
            html,
            "div .post-container > article"@,
            "header > h1 > a"@,
            i,
        ),
        img_src: img_src_of(html, "div .post-container > article"@, "div > a > img"@, "src"@, i),
        links: Seq::new(
            n_links_of(html, "div .post-container > article"@, "p > a"@, i) as nat,
            |j: int|
                LinkView {
                    texts: link_texts_of(html, "div .post-container > article"@, "p > a"@, i, j),
                    href: link_href_of(
                        html,
                        "div .post-container > article"@,
                        "p > a"@,
                        "href"@,
                        i,
                        j,
                    ),
                },
        ),
    }
}

/// The post blocks of a page under the fixed structural queries.
pub open spec fn spec_blocks_of(html: Seq<char>) -> Seq<BlockView> {
    Seq::new(
        n_articles_of(html, "div .post-container > article"@) as nat,
        |i: int| spec_block_at(html, i),
    )
}

/// Reduce one page's HTML to its post blocks' raw material, in document
/// order. Fails exactly when a fixed structural query is malformed.
#[verifier::loop_isolation(false)]
pub fn extract_blocks(html: &str) -> (r: Result<Vec<RawBlock>, ScrapeError>)
    ensures
        (r is Ok) == spec_selectors_ok(),
        r matches Ok(bs) ==> bs.deep_view() == spec_blocks_of(html@),
        r matches Err(e) ==> e == ScrapeError::ParseError,
{
    let sa = "div .post-container > article";
    let st = "header > h1 > a";
    let si = "div > a > img";
    let sl = "p > a";
    if !(selector_check(sa) && selector_check(st) && selector_check(si) && selector_check(sl)) {
        return Err(ScrapeError::ParseError);
    }
    let n = article_count(html, sa);
    let mut blocks: Vec<RawBlock> = Vec::new();
    let mut i: usize = 0;
    while i < n
        invariant
            i <= n,
            n as int == n_articles_of(html@, sa@),
            blocks.deep_view() =~= spec_blocks_of(html@).subrange(0, i as int),
        decreases n - i,
    {
        let title_texts = title_texts_at(html, sa, st, i);
        let img_src = img_src_at(html, sa, si, "src", i);
        let m = link_count_at(html, sa, sl, i);
        let mut links: Vec<RawLink> = Vec::new();
        let mut j: usize = 0;
        while j < m
            invariant
                j <= m,
                m as int == n_links_of(html@, sa@, sl@, i as int),
                links.deep_view() =~= spec_block_at(html@, i as int).links.subrange(0, j as int),
            decreases m - j,
        {
            let texts = link_texts_at(html, sa, sl, i, j);
            let href = link_href_at(html, sa, sl, "href", i, j);
            links.push(RawLink { texts, href });
            proof {
                let lv = spec_block_at(html@, i as int).links;
                assert(links.deep_view().last() == lv[j as int]);
                assert(links.deep_view() =~= lv.subrange(0, j + 1));
            }
            j += 1;
        }
        let b = RawBlock { title_texts, img_src, links };
        proof {
            assert(b.deep_view().links =~= spec_block_at(html@, i as int).links);
            assert(b.deep_view() == spec_block_at(html@, i as int));
            assert(spec_blocks_of(html@)[i as int] == spec_block_at(html@, i as int));
        }
        blocks.push(b);
        proof {
            assert(blocks.deep_view() =~= spec_blocks_of(html@).subrange(0, i + 1));
        }
        i += 1;
    }
    proof {
        assert(spec_blocks_of(html@).subrange(0, n as int) =~= spec_blocks_of(html@));
    }
    Ok(blocks)
}

/// How a page's HTML maps to its extraction outcome: the parse error
/// comes exactly of a malformed structural query; otherwise the outcome
/// is that of the page's post blocks.
pub open spec fn parse_rel(html: Seq<char>, r: Result<Vec<ScrapeResult>, ScrapeError>) -> bool {
    &&& ((r == Result::<Vec<ScrapeResult>, ScrapeError>::Err(ScrapeError::ParseError))
        <==> !spec_selectors_ok())
    &&& (spec_selectors_ok() ==> records_relation(spec_blocks_of(html), r))
}

/// Extract the records of one page's HTML: locate each post block and
/// build its record, in document order. Fails with the parse error
/// exactly when a fixed structural query is malformed; otherwise the
/// outcome is that of the page's post blocks.
pub fn parse_html(html: &str) -> (r: Result<Vec<ScrapeResult>, ScrapeError>)
    ensures
        parse_rel(html@, r),
{
    let blocks = match extract_blocks(html) {
        Ok(b) => b,
        Err(e) => {
            return Err(e);
        },
    };
    let r = records_from_blocks(&blocks);
    proof {
        assert(records_relation(spec_blocks_of(html@), r));
        if r is Err {
            let e = r->Err_0;
            let bs = spec_blocks_of(html@);
            let j = choose|j: int| #[trigger] first_failure_at(bs, j) && e == spec_block_error(
                bs[j],
            );
            assert(e == spec_block_error(bs[j]));
            assert(e != ScrapeError::ParseError);
        }
    }
    r
}

/// Two extraction outcomes agree: the same success, records with equal
/// fields in order, or the same error.
pub open spec fn same_extraction(
    r1: Result<Vec<ScrapeResult>, ScrapeError>,
    r2: Result<Vec<ScrapeResult>, ScrapeError>,
) -> bool {
    if r1 is Ok && r2 is Ok {
        let v1 = r1->Ok_0;
        let v2 = r2->Ok_0;
        v1@.len() == v2@.len() && (forall|i: int|
            0 <= i < v1@.len() ==> ((#[trigger] v1@[i]).title@ == (#[trigger] v2@[i]).title@
                && v1@[i].img@ == v2@[i].img@ && v1@[i].href@ == v2@[i].href@))
    } else if r1 is Err && r2 is Err {
        r1->Err_0 == r2->Err_0
    } else {
        false
    }
}

/// Extraction is deterministic: two outcomes of parsing the same page
/// agree, record for record and error for error.
pub proof fn lemma_parse_deterministic(
    html: Seq<char>,
    r1: Result<Vec<ScrapeResult>, ScrapeError>,
    r2: Result<Vec<ScrapeResult>, ScrapeError>,
)
    requires
        parse_rel(html, r1),
        parse_rel(html, r2),
    ensures
        same_extraction(r1, r2),
{
    if !spec_selectors_ok() {
        assert(r1 == Result::<Vec<ScrapeResult>, ScrapeError>::Err(ScrapeError::ParseError));
        assert(r2 == Result::<Vec<ScrapeResult>, ScrapeError>::Err(ScrapeError::ParseError));
    } else {
        let bs = spec_blocks_of(html);
        assert(records_relation(bs, r1));
        assert(records_relation(bs, r2));
        if r1 is Ok {
            assert(r2 is Ok);
            let v1 = r1->Ok_0;
            let v2 = r2->Ok_0;
            assert(v1@.len() == bs.len());
            assert(v2@.len() == bs.len());
            assert forall|i: int|
                0 <= i < v1@.len() implies ((#[trigger] v1@[i]).title@ == (#[trigger] v2@[i]).title@
                && v1@[i].img@ == v2@[i].img@ && v1@[i].href@ == v2@[i].href@) by {
                assert(spec_block_record(bs[i], v1@[i]));
                assert(spec_block_record(bs[i], v2@[i]));
            }
        } else {
            assert(r2 is Err);
            let e1 = r1->Err_0;
            let e2 = r2->Err_0;
            let j1 = choose|j: int| #[trigger] first_failure_at(bs, j) && e1 == spec_block_error(
                bs[j],
            );
            let j2 = choose|j: int| #[trigger] first_failure_at(bs, j) && e2 == spec_block_error(
                bs[j],
            );
            if j1 < j2 {
                assert(block_link_ok(bs[j1]));
                assert(false);
            }
            if j2 < j1 {
                assert(block_link_ok(bs[j2]));
                assert(false);
            }
            assert(e1 == e2);
        }
    }
}

} // verus!
