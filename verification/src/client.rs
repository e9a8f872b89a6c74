//! Paginated fetching from a vendor: the page-by-page stop rule and the
//! client-side recency filter.
//!
//! Pages are requested in order, 1, 2, 3…, until a page comes back empty or
//! with a non-success response — that silently ends the collection, keeping
//! what was accumulated. A transport failure instead fails the whole fetch.
use vstd::prelude::*;

use crate::json::{obj_get, string_form, Json, JsonView};
use crate::utils::ts_of;

verus! {

/// One collection a vendor serves, with the scope it needs.
#[derive(Clone, Copy, PartialEq, Eq, Structural, Debug)]
pub enum Collection {
    PullRequests,
    IssueComments { issue_id: i64 },
    IssueEvents { issue_id: i64 },
}

/// The timestamp field the client-side recency check of a collection reads:
/// primary items by update time, status events by creation time. The comments
/// endpoint relies on server-side since-filtering and checks nothing itself.
pub open spec fn recency_field(c: Collection) -> Option<Seq<char>> {
    match c {
        Collection::PullRequests => Some("updated_at"@),
        Collection::IssueComments { .. } => None,
        Collection::IssueEvents { .. } => Some("created_at"@),
    }
}

/// The millisecond timestamp a field of an item reports: the field must be
/// present, hold a string, and parse.
pub open spec fn ts_field(j: JsonView, field: Seq<char>) -> Option<i64> {
    match obj_get(j, field) {
        Some(v) => if v is Text {
            ts_of(string_form(v))
        } else {
            None
        },
        None => None,
    }
}

/// Whether an item passes the recency check of its collection: a collection
/// without a timestamp field keeps everything; otherwise the item's reported
/// timestamp must parse and lie strictly after `since`. An item with a
/// missing or unparsable timestamp is excluded, not an error.
pub open spec fn spec_eligible(j: JsonView, c: Collection, since: i64) -> bool {
    match recency_field(c) {
        None => true,
        Some(field) => match ts_field(j, field) {
            Some(t) => t > since,
            None => false,
        },
    }
}

/// Whether the item passes the recency check of the collection.
pub fn eligible_item(item: &Json, c: &Collection, since: i64) -> (r: bool)
    ensures
        r == spec_eligible(item@, *c, since),
{
    let field: &str = match c {
        Collection::PullRequests => "updated_at",
        Collection::IssueComments { .. } => {
            return true;
        },
        Collection::IssueEvents { .. } => "created_at",
    };
    match crate::json::json_get(item, field) {
        None => false,
        Some(v) => {
            proof {
                crate::json::lemma_jview_shape(*v);
            }
            match v {
                Json::Text(s) => match crate::utils::parse_to_date_time(s.as_str()) {
                    Some(t) => t > since,
                    None => false,
                },
                _ => false,
            }
        },
    }
}

/// What one page request returns: a successful page's items, a non-success
/// response (the silent end of pagination), or a hard transport failure with
/// its message. A response whose body does not decode as a list of JSON
/// values is a transport failure too.
pub enum PageResult {
    Items(Vec<Json>),
    NonSuccess,
    Failure(String),
}

/// The mathematical shape of a [`PageResult`].
pub ghost enum PageResultView {
    Items(Seq<JsonView>),
    NonSuccess,
    Failure(Seq<char>),
}

impl View for PageResult {
    type V = PageResultView;

    open spec fn view(&self) -> PageResultView {
        match self {
            PageResult::Items(items) => PageResultView::Items(items.deep_view()),
            PageResult::NonSuccess => PageResultView::NonSuccess,
            PageResult::Failure(m) => PageResultView::Failure(m@),
        }
    }
}

impl DeepView for PageResult {
    type V = PageResultView;

    open spec fn deep_view(&self) -> PageResultView {
        self.view()
    }
}

/// The items of one page that pass the recency check, in order.
pub open spec fn eligible_filter(items: Seq<JsonView>, c: Collection, since: i64) -> Seq<JsonView>
    decreases items.len(),
{
    if items.len() == 0 {
        Seq::empty()
    } else {
        let rest = eligible_filter(items.drop_first(), c, since);
        if spec_eligible(items[0], c, since) {
            seq![items[0]] + rest
        } else {
            rest
        }
    }
}

/// What paginated fetching collects from a run of pages: each page's eligible
/// items appended in order, stopping at the first empty page or non-success
/// response, and failing hard on a transport failure.
pub open spec fn spec_collect_pages(pages: Seq<PageResultView>, c: Collection, since: i64) -> Result<
    Seq<JsonView>,
    Seq<char>,
>
    decreases pages.len(),
{
    if pages.len() == 0 {
        Ok(Seq::empty())
    } else {
        match pages[0] {
            PageResultView::Failure(m) => Err(m),
            PageResultView::NonSuccess => Ok(Seq::empty()),
            PageResultView::Items(items) => if items.len() == 0 {
                Ok(Seq::empty())
            } else {
                match spec_collect_pages(pages.drop_first(), c, since) {
                    Ok(rest) => Ok(eligible_filter(items, c, since) + rest),
                    Err(m) => Err(m),
                }
            },
        }
    }
}

/// Every item the recency filter keeps passes the recency check.
proof fn lemma_eligible_filter_members(items: Seq<JsonView>, c: Collection, since: i64)
    ensures
        forall|i: int|
            0 <= i < eligible_filter(items, c, since).len() ==> spec_eligible(
                #[trigger] eligible_filter(items, c, since)[i],
                c,
                since,
            ),
    decreases items.len(),
{
    if items.len() > 0 {
        lemma_eligible_filter_members(items.drop_first(), c, since);
        let rest = eligible_filter(items.drop_first(), c, since);
        let whole = eligible_filter(items, c, since);
        assert forall|i: int| 0 <= i < whole.len() implies spec_eligible(
            #[trigger] whole[i],
            c,
            since,
        ) by {
            if spec_eligible(items[0], c, since) {
                if i == 0 {
                    assert(whole[i] == items[0]);
                } else {
                    assert(whole[i] == rest[i - 1]);
                }
            } else {
                assert(whole[i] == rest[i]);
            }
        }
    }
}

/// Every item that pagination collects passes its collection's recency
/// check: primary items lie strictly after the cutoff by update time, status
/// events by creation time.
pub proof fn lemma_collected_items_eligible(pages: Seq<PageResultView>, c: Collection, since: i64)
    requires
        spec_collect_pages(pages, c, since) is Ok,
    ensures
        forall|i: int|
            0 <= i < spec_collect_pages(pages, c, since)->Ok_0.len() ==> spec_eligible(
                #[trigger] spec_collect_pages(pages, c, since)->Ok_0[i],
                c,
                since,
            ),
    decreases pages.len(),
{
    if pages.len() > 0 {
        match pages[0] {
            PageResultView::Failure(_) => {},
            PageResultView::NonSuccess => {},
            PageResultView::Items(items) => {
                if items.len() > 0 {
                    lemma_eligible_filter_members(items, c, since);
                    lemma_collected_items_eligible(pages.drop_first(), c, since);
                }
            },
        }
    }
}

/// The mathematical shape of a collected-pages result.
pub open spec fn collect_result_view(r: Result<Vec<Json>, String>) -> Result<
    Seq<JsonView>,
    Seq<char>,
> {
    match r {
        Ok(items) => Ok(items.deep_view()),
        Err(m) => Err(m@),
    }
}

/// A collected prefix prepended onto the outcome of the remaining pages.
pub open spec fn prepend_collected(acc: Seq<JsonView>, r: Result<Seq<JsonView>, Seq<char>>) -> Result<
    Seq<JsonView>,
    Seq<char>,
> {
    match r {
        Ok(rest) => Ok(acc + rest),
        Err(m) => Err(m),
    }
}

/// Collects the eligible items of a run of already-fetched pages, in order:
/// stops at the first empty page or non-success response, keeping what was
/// accumulated so far; a transport failure on any reached page fails the
/// whole collection.
pub fn collect_pages(pages: Vec<PageResult>, c: &Collection, since: i64) -> (r: Result<
    Vec<Json>,
    String,
>)
    ensures
        collect_result_view(r) == spec_collect_pages(pages.deep_view(), *c, since),
{
    let ghost pv = pages.deep_view();
    let mut rest = pages;
    let mut acc: Vec<Json> = Vec::new();
    proof {
        assert(acc.deep_view() =~= Seq::<JsonView>::empty());
    }
    while rest.len() > 0
        invariant
            pv == pages.deep_view(),
            spec_collect_pages(pv, *c, since) == prepend_collected(
                acc.deep_view(),
                spec_collect_pages(rest.deep_view(), *c, since),
            ),
        decreases rest@.len(),
    {
        let ghost pre = rest.deep_view();
        let ghost acc_pre = acc.deep_view();
        let page = rest.remove(0);
        proof {
            assert(rest.deep_view() =~= pre.drop_first());
            assert(page@ == pre[0]);
        }
        match page {
            PageResult::Failure(m) => {
                proof {
                    assert(pre[0] == PageResultView::Failure(m@));
                    assert(spec_collect_pages(pre, *c, since) == Err::<Seq<JsonView>, Seq<char>>(
                        m@,
                    ));
                    assert(spec_collect_pages(pv, *c, since) == Err::<Seq<JsonView>, Seq<char>>(
                        m@,
                    ));
                }
                return Err(m);
            },
            PageResult::NonSuccess => {
                proof {
                    assert(pre[0] == PageResultView::NonSuccess);
                    assert(spec_collect_pages(pre, *c, since) == Ok::<Seq<JsonView>, Seq<char>>(
                        Seq::empty(),
                    ));
                    assert(acc.deep_view() + Seq::<JsonView>::empty() =~= acc.deep_view());
                    assert(spec_collect_pages(pv, *c, since) == Ok::<Seq<JsonView>, Seq<char>>(
                        acc.deep_view(),
                    ));
                }
                return Ok(acc);
            },
            PageResult::Items(items) => {
                if items.len() == 0 {
                    proof {
                        assert(items.deep_view() =~= Seq::<JsonView>::empty());
                        assert(acc.deep_view() + Seq::<JsonView>::empty() =~= acc.deep_view());
                    }
                    return Ok(acc);
                }
                let ghost itv = items.deep_view();
                let mut items = items;
                while items.len() > 0
                    invariant
                        acc.deep_view() + eligible_filter(items.deep_view(), *c, since)
                            =~= acc_pre + eligible_filter(itv, *c, since),
                    decreases items@.len(),
                {
                    let ghost icur = items.deep_view();
                    let it = items.remove(0);
                    proof {
                        assert(items.deep_view() =~= icur.drop_first());
                        assert(it@ == icur[0]);
                    }
                    if eligible_item(&it, c, since) {
                        let ghost acc_old = acc.deep_view();
                        acc.push(it);
                        proof {
                            assert(acc.deep_view() =~= acc_old.push(icur[0]));
                            assert(acc_old.push(icur[0]) + eligible_filter(
                                icur.drop_first(),
                                *c,
                                since,
                            ) =~= acc_old + eligible_filter(icur, *c, since));
                        }
                    }
                }
                proof {
                    assert(items.deep_view() =~= Seq::<JsonView>::empty());
                    assert(acc.deep_view() =~= acc_pre + eligible_filter(itv, *c, since));
                    assert(pre[0] == PageResultView::Items(itv));
                    match spec_collect_pages(rest.deep_view(), *c, since) {
                        Ok(r2) => {
                            assert(acc_pre + (eligible_filter(itv, *c, since) + r2) =~= (acc_pre
                                + eligible_filter(itv, *c, since)) + r2);
                        },
                        Err(_) => {},
                    }
                }
            },
        }
    }
    proof {
        assert(rest.deep_view() =~= Seq::<PageResultView>::empty());
        assert(acc.deep_view() + Seq::<JsonView>::empty() =~= acc.deep_view());
    }
    Ok(acc)
}

/// One page request: which collection of which repository, which page, and
/// the run's cutoff (the comments endpoint hands it to the server).
#[derive(Clone, Debug)]
pub struct PageRequest {
    pub owner: String,
    pub repo: String,
    pub collection: Collection,
    pub page: u64,
    pub since: i64,
}

/// A vendor client, page by page: one call fetches one page of one
/// collection. How a page is fetched — transport, auth, encoding — is the
/// implementor's concern; nothing is assumed of the returned data, and two
/// calls with one request may differ.
pub trait PageFetcher {
    fn fetch_page(&self, req: &PageRequest) -> PageResult;
}

/// Whether this page ends the run: a transport failure, a non-success
/// response, or an empty page.
pub open spec fn spec_page_ends(p: PageResultView) -> bool {
    match p {
        PageResultView::Items(items) => items.len() == 0,
        _ => true,
    }
}

/// Whether the page ends the pagination run.
fn page_run_ends(p: &PageResult) -> (r: bool)
    ensures
        r == spec_page_ends(p@),
{
    match p {
        PageResult::Items(items) => items.len() == 0,
        PageResult::NonSuccess => true,
        PageResult::Failure(_) => true,
    }
}

/// What a live pagination run gathered: at least one page, in request order,
/// none but the last ending the run — the last one ends it, unless the run
/// hit the page-counter bound, which no reachable run does — and the outcome
/// is exactly what [`spec_collect_pages`] makes of those pages.
pub open spec fn fetched_run_ok(
    outcome: Result<Seq<JsonView>, Seq<char>>,
    pages: Seq<PageResultView>,
    c: Collection,
    since: i64,
) -> bool {
    &&& pages.len() > 0
    &&& (forall|i: int| 0 <= i < pages.len() - 1 ==> !spec_page_ends(#[trigger] pages[i]))
    &&& (spec_page_ends(pages.last()) || pages.len() == u64::MAX - 1)
    &&& outcome == spec_collect_pages(pages, c, since)
}

/// Fetches a collection page by page, starting at page 1: pages are gathered
/// until one ends the run — the first empty page or non-success response —
/// and what was gathered is collected by [`collect_pages`], whose contract
/// pins the outcome; a transport failure on a reached page aborts the fetch.
/// The result is some gathered page run's collection, and every returned item
/// passes the collection's recency check.
pub fn fetch_collection<C: PageFetcher>(
    client: &C,
    owner: &str,
    repo: &str,
    collection: &Collection,
    since: i64,
) -> (r: Result<Vec<Json>, String>)
    ensures
        exists|pages: Seq<PageResultView>| fetched_run_ok(
            collect_result_view(r),
            pages,
            *collection,
            since,
        ),
        r matches Ok(items) ==> forall|i: int|
            0 <= i < items.deep_view().len() ==> spec_eligible(
                #[trigger] items.deep_view()[i],
                *collection,
                since,
            ),
{
    let mut pages: Vec<PageResult> = Vec::new();
    let mut page: u64 = 1;
    let mut stopped = false;
    proof {
        assert(pages.deep_view() =~= Seq::<PageResultView>::empty());
    }
    while !stopped && page < u64::MAX
        invariant
            1 <= page,
            !stopped ==> pages.deep_view().len() == page - 1,
            stopped ==> pages.deep_view().len() > 0 && spec_page_ends(pages.deep_view().last()),
            forall|i: int|
                0 <= i < pages.deep_view().len() - 1 ==> !spec_page_ends(
                    #[trigger] pages.deep_view()[i],
                ),
            !stopped && pages.deep_view().len() > 0 ==> !spec_page_ends(pages.deep_view().last()),
        decreases u64::MAX - page + (if stopped { 0int } else { 1int }),
    {
        let req = PageRequest {
            owner: owner.to_owned(),
            repo: repo.to_owned(),
            collection: *collection,
            page,
            since,
        };
        let result = client.fetch_page(&req);
        let ghost before = pages.deep_view();
        if page_run_ends(&result) {
            stopped = true;
        } else {
            page = page + 1;
        }
        pages.push(result);
        proof {
            assert(pages.deep_view() =~= before.push(result@));
        }
    }
    let ghost pv = pages.deep_view();
    proof {
        assert(pv.len() > 0);
    }
    let r = collect_pages(pages, collection, since);
    proof {
        assert(fetched_run_ok(collect_result_view(r), pv, *collection, since));
        if r is Ok {
            lemma_collected_items_eligible(pv, *collection, since);
            assert forall|i: int|
                0 <= i < (r->Ok_0).deep_view().len() implies spec_eligible(
                #[trigger] (r->Ok_0).deep_view()[i],
                *collection,
                since,
            ) by {
                assert((r->Ok_0).deep_view()[i] == spec_collect_pages(
                    pv,
                    *collection,
                    since,
                )->Ok_0[i]);
            }
        }
    }
    r
}

} // verus!
