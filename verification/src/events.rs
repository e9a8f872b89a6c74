//! Aggregation and orchestration: fan one repository query into its primary
//! items, their comments and their status events, and stitch the results into
//! one ordered event stream with parent/child linkage; run the configured
//! queries in order, isolating failures per repository.
use vstd::prelude::*;

use crate::client::{collect_result_view, fetch_collection, spec_eligible, Collection, PageFetcher};
use crate::data::{Config, Event, EventKind, EventView, PullRequest, PullRequestView};
use crate::jfilter::{
    is_match_filters, spec_match_filters, FilterError, FilterErrorView,
};
use crate::json::{Json, JsonView};
use crate::response::{
    parse_issue_comment, parse_issue_event, parse_pull_request, spec_parse_comment,
    spec_parse_issue_event, spec_parse_pr, ParseError,
};
use crate::utils::{dec_str_of, i64_to_string, minutes_to_millis, now_ts, saturating_sub_i64};

verus! {

/// Why one repository's aggregation aborted.
#[derive(Clone, Debug, PartialEq, Eq)]
pub enum AggregateError {
    /// A transport-level failure while fetching a collection; its message.
    Transport(String),
    /// The filter engine failed on a primary item.
    Filter(FilterError),
    /// A raw object does not fit its normalized shape.
    Malformed(ParseError),
}

/// The mathematical shape of an [`AggregateError`].
pub ghost enum AggregateErrorView {
    Transport(Seq<char>),
    Filter(FilterErrorView),
    Malformed(ParseError),
}

impl View for AggregateError {
    type V = AggregateErrorView;

    open spec fn view(&self) -> AggregateErrorView {
        match self {
            AggregateError::Transport(m) => AggregateErrorView::Transport(m@),
            AggregateError::Filter(e) => AggregateErrorView::Filter(e@),
            AggregateError::Malformed(e) => AggregateErrorView::Malformed(*e),
        }
    }
}

impl DeepView for AggregateError {
    type V = AggregateErrorView;

    open spec fn deep_view(&self) -> AggregateErrorView {
        self.view()
    }
}

/// What the vendor returned for one primary item's child collections: the
/// comments and the status events, or the transport failure fetching one hit.
pub struct ItemChildren {
    pub issue_id: i64,
    pub comments: Result<Vec<Json>, String>,
    pub status_events: Result<Vec<Json>, String>,
}

/// The mathematical shape of an [`ItemChildren`].
pub ghost struct ItemChildrenView {
    pub issue_id: i64,
    pub comments: Result<Seq<JsonView>, Seq<char>>,
    pub status_events: Result<Seq<JsonView>, Seq<char>>,
}

impl View for ItemChildren {
    type V = ItemChildrenView;

    open spec fn view(&self) -> ItemChildrenView {
        ItemChildrenView {
            issue_id: self.issue_id,
            comments: collect_result_view(self.comments),
            status_events: collect_result_view(self.status_events),
        }
    }
}

impl DeepView for ItemChildren {
    type V = ItemChildrenView;

    open spec fn deep_view(&self) -> ItemChildrenView {
        self.view()
    }
}

/// What the vendor returned for one repository query: the primary items, and
/// the child collections per item id. One children entry feeds one matched
/// item: the first entry with a matching id is consumed by it; a matched item
/// without an entry has empty child collections.
pub struct RepoSnapshot {
    pub pull_requests: Result<Vec<Json>, String>,
    pub children: Vec<ItemChildren>,
}

/// The mathematical shape of a [`RepoSnapshot`].
pub ghost struct RepoSnapshotView {
    pub pull_requests: Result<Seq<JsonView>, Seq<char>>,
    pub children: Seq<ItemChildrenView>,
}

impl View for RepoSnapshot {
    type V = RepoSnapshotView;

    open spec fn view(&self) -> RepoSnapshotView {
        RepoSnapshotView {
            pull_requests: collect_result_view(self.pull_requests),
            children: self.children.deep_view(),
        }
    }
}

impl DeepView for RepoSnapshot {
    type V = RepoSnapshotView;

    open spec fn deep_view(&self) -> RepoSnapshotView {
        self.view()
    }
}

/// The event a comment normalizes to: a `PrComment` linked to its primary
/// item, named by the comment's body, carrying the query's priority and the
/// raw comment.
pub open spec fn comment_event_view(c: JsonView, issue_id: i64, priority: usize) -> EventView
    recommends
        spec_parse_comment(c) is Ok,
{
    let resp = spec_parse_comment(c)->Ok_0;
    EventView {
        kind: EventKind::PrComment,
        id: dec_str_of(resp.id as int),
        parent_event_id: Some(dec_str_of(issue_id as int)),
        name: resp.body,
        link: Some(resp.html_url),
        date: resp.updated_at,
        priority,
        row_data: c,
    }
}

/// The event a status event normalizes to: a `PrEvent` linked to its primary
/// item, named by the status event's name, without a link.
pub open spec fn issue_event_view(s: JsonView, issue_id: i64, priority: usize) -> EventView
    recommends
        spec_parse_issue_event(s) is Ok,
{
    let resp = spec_parse_issue_event(s)->Ok_0;
    EventView {
        kind: EventKind::PrEvent,
        id: dec_str_of(resp.id as int),
        parent_event_id: Some(dec_str_of(issue_id as int)),
        name: resp.event,
        link: None,
        date: resp.created_at,
        priority,
        row_data: s,
    }
}

/// The event a matched primary item normalizes to: a `PR` without a parent,
/// named by its title.
pub open spec fn pr_event_view(pr: JsonView, priority: usize) -> EventView
    recommends
        spec_parse_pr(pr) is Ok,
{
    let resp = spec_parse_pr(pr)->Ok_0;
    EventView {
        kind: EventKind::PR,
        id: dec_str_of(resp.number as int),
        parent_event_id: None,
        name: resp.title,
        link: Some(resp.html_url),
        date: resp.updated_at,
        priority,
        row_data: pr,
    }
}

/// The events of a comment list, in order; the first comment that does not
/// normalize aborts.
pub open spec fn spec_comment_events(cs: Seq<JsonView>, issue_id: i64, priority: usize) -> Result<
    Seq<EventView>,
    ParseError,
>
    decreases cs.len(),
{
    if cs.len() == 0 {
        Ok(Seq::empty())
    } else {
        match spec_parse_comment(cs[0]) {
            Err(e) => Err(e),
            Ok(_) => match spec_comment_events(cs.drop_first(), issue_id, priority) {
                Err(e) => Err(e),
                Ok(rest) => Ok(seq![comment_event_view(cs[0], issue_id, priority)] + rest),
            },
        }
    }
}

/// The events of a status-event list, in order; the first one that does not
/// normalize aborts.
pub open spec fn spec_status_events(ss: Seq<JsonView>, issue_id: i64, priority: usize) -> Result<
    Seq<EventView>,
    ParseError,
>
    decreases ss.len(),
{
    if ss.len() == 0 {
        Ok(Seq::empty())
    } else {
        match spec_parse_issue_event(ss[0]) {
            Err(e) => Err(e),
            Ok(_) => match spec_status_events(ss.drop_first(), issue_id, priority) {
                Err(e) => Err(e),
                Ok(rest) => Ok(seq![issue_event_view(ss[0], issue_id, priority)] + rest),
            },
        }
    }
}

/// The index of the first children entry with the given item id, or a
/// negative number when there is none.
pub open spec fn child_idx(children: Seq<ItemChildrenView>, id: i64) -> int
    decreases children.len(),
{
    if children.len() == 0 {
        -1
    } else if children[0].issue_id == id {
        0
    } else {
        let rest = child_idx(children.drop_first(), id);
        if rest < 0 {
            -1
        } else {
            1 + rest
        }
    }
}

/// The child collections a matched item reads: those of the first entry with
/// its id, or empty ones when no entry is left.
pub open spec fn child_collections(children: Seq<ItemChildrenView>, id: i64) -> (
    Result<Seq<JsonView>, Seq<char>>,
    Result<Seq<JsonView>, Seq<char>>,
) {
    let i = child_idx(children, id);
    if i < 0 {
        (Ok(Seq::empty()), Ok(Seq::empty()))
    } else {
        (children[i].comments, children[i].status_events)
    }
}

/// The children entries left after a matched item consumed its entry.
pub open spec fn consume_child(children: Seq<ItemChildrenView>, id: i64) -> Seq<ItemChildrenView> {
    let i = child_idx(children, id);
    if i < 0 {
        children
    } else {
        children.remove(i)
    }
}

/// The events of a primary-item list, threading the children entries: a
/// malformed item aborts, a filter failure aborts, a non-matching item
/// contributes nothing and consumes nothing, and a matched item appends its
/// comments' events, then its status events' events, then its own event.
pub open spec fn spec_item_events(
    prs: Seq<JsonView>,
    children: Seq<ItemChildrenView>,
    q: PullRequestView,
) -> Result<Seq<EventView>, AggregateErrorView>
    decreases prs.len(),
{
    if prs.len() == 0 {
        Ok(Seq::empty())
    } else {
        let pr = prs[0];
        match spec_parse_pr(pr) {
            Err(e) => Err(AggregateErrorView::Malformed(e)),
            Ok(resp) => match spec_match_filters(pr, q.filters) {
                Err(fe) => Err(AggregateErrorView::Filter(fe)),
                Ok(m) => if !m {
                    spec_item_events(prs.drop_first(), children, q)
                } else {
                    match child_collections(children, resp.number).0 {
                        Err(tm) => Err(AggregateErrorView::Transport(tm)),
                        Ok(cs) => match spec_comment_events(cs, resp.number, q.priority) {
                            Err(e) => Err(AggregateErrorView::Malformed(e)),
                            Ok(cevs) => match child_collections(children, resp.number).1 {
                                Err(tm) => Err(AggregateErrorView::Transport(tm)),
                                Ok(ss) => match spec_status_events(ss, resp.number, q.priority) {
                                    Err(e) => Err(AggregateErrorView::Malformed(e)),
                                    Ok(sevs) => match spec_item_events(
                                        prs.drop_first(),
                                        consume_child(children, resp.number),
                                        q,
                                    ) {
                                        Err(e) => Err(e),
                                        Ok(rest) => Ok(
                                            cevs + sevs + seq![pr_event_view(pr, q.priority)]
                                                + rest,
                                        ),
                                    },
                                },
                            },
                        },
                    }
                },
            },
        }
    }
}

/// What one repository query aggregates to, from what the vendor returned.
pub open spec fn spec_aggregate(snap: RepoSnapshotView, q: PullRequestView) -> Result<
    Seq<EventView>,
    AggregateErrorView,
> {
    match snap.pull_requests {
        Err(m) => Err(AggregateErrorView::Transport(m)),
        Ok(prs) => spec_item_events(prs, snap.children, q),
    }
}

/// What a run returns: the successful queries' events concatenated in
/// configuration order, and the failures kept aside, in order, never mixed
/// into the event sequence.
pub open spec fn spec_run(snaps: Seq<RepoSnapshotView>, qs: Seq<PullRequestView>) -> (
    Seq<EventView>,
    Seq<AggregateErrorView>,
)
    decreases qs.len(),
{
    if qs.len() == 0 || snaps.len() == 0 {
        (Seq::empty(), Seq::empty())
    } else {
        let rest = spec_run(snaps.drop_first(), qs.drop_first());
        match spec_aggregate(snaps[0], qs[0]) {
            Ok(evs) => (evs + rest.0, rest.1),
            Err(e) => (rest.0, seq![e] + rest.1),
        }
    }
}

/// The mathematical shape of a built event list.
pub open spec fn events_result_view(r: Result<Vec<Event>, ParseError>) -> Result<
    Seq<EventView>,
    ParseError,
> {
    match r {
        Ok(evs) => Ok(evs.deep_view()),
        Err(e) => Err(e),
    }
}

/// A built prefix prepended onto the outcome of the remaining raw objects.
pub open spec fn prepend_events(acc: Seq<EventView>, r: Result<Seq<EventView>, ParseError>) -> Result<
    Seq<EventView>,
    ParseError,
> {
    match r {
        Ok(rest) => Ok(acc + rest),
        Err(e) => Err(e),
    }
}

/// Normalizes a comment list into its events, in order: one `PrComment` per
/// comment, linked to the primary item; the first malformed comment aborts.
pub fn build_comment_events(comments: Vec<Json>, issue_id: i64, priority: usize) -> (r: Result<
    Vec<Event>,
    ParseError,
>)
    ensures
        events_result_view(r) == spec_comment_events(comments.deep_view(), issue_id, priority),
{
    let ghost cv = comments.deep_view();
    let mut rest = comments;
    let mut acc: Vec<Event> = Vec::new();
    proof {
        assert(acc.deep_view() =~= Seq::<EventView>::empty());
        assert(cv.skip(0) =~= cv);
    }
    while rest.len() > 0
        invariant
            cv == comments.deep_view(),
            spec_comment_events(cv, issue_id, priority) == prepend_events(
                acc.deep_view(),
                spec_comment_events(rest.deep_view(), issue_id, priority),
            ),
        decreases rest@.len(),
    {
        let ghost pre = rest.deep_view();
        let c = rest.remove(0);
        proof {
            assert(rest.deep_view() =~= pre.drop_first());
            assert(c@ == pre[0]);
        }
        let resp = match parse_issue_comment(&c) {
            Ok(resp) => resp,
            Err(e) => {
                return Err(e);
            },
        };
        let ev = Event {
            kind: EventKind::PrComment,
            id: i64_to_string(resp.id),
            parent_event_id: Some(i64_to_string(issue_id)),
            name: resp.body,
            link: Some(resp.html_url),
            date: resp.updated_at,
            priority,
            row_data: c,
        };
        proof {
            assert(ev@ == comment_event_view(pre[0], issue_id, priority));
        }
        let ghost acc_old = acc.deep_view();
        acc.push(ev);
        proof {
            assert(acc.deep_view() =~= acc_old.push(ev@));
            match spec_comment_events(rest.deep_view(), issue_id, priority) {
                Ok(r2) => {
                    assert(acc_old + (seq![comment_event_view(pre[0], issue_id, priority)] + r2)
                        =~= acc.deep_view() + r2);
                },
                Err(_) => {},
            }
        }
    }
    proof {
        assert(rest.deep_view() =~= Seq::<JsonView>::empty());
        assert(acc.deep_view() + Seq::<EventView>::empty() =~= acc.deep_view());
    }
    Ok(acc)
}

/// Normalizes a status-event list into its events, in order: one `PrEvent`
/// per status event, linked to the primary item; the first malformed status
/// event aborts.
pub fn build_status_events(status_events: Vec<Json>, issue_id: i64, priority: usize) -> (r: Result<
    Vec<Event>,
    ParseError,
>)
    ensures
        events_result_view(r) == spec_status_events(
            status_events.deep_view(),
            issue_id,
            priority,
        ),
{
    let ghost sv = status_events.deep_view();
    let mut rest = status_events;
    let mut acc: Vec<Event> = Vec::new();
    proof {
        assert(acc.deep_view() =~= Seq::<EventView>::empty());
    }
    while rest.len() > 0
        invariant
            sv == status_events.deep_view(),
            spec_status_events(sv, issue_id, priority) == prepend_events(
                acc.deep_view(),
                spec_status_events(rest.deep_view(), issue_id, priority),
            ),
        decreases rest@.len(),
    {
        let ghost pre = rest.deep_view();
        let s = rest.remove(0);
        proof {
            assert(rest.deep_view() =~= pre.drop_first());
            assert(s@ == pre[0]);
        }
        let resp = match parse_issue_event(&s) {
            Ok(resp) => resp,
            Err(e) => {
                return Err(e);
            },
        };
        let ev = Event {
            kind: EventKind::PrEvent,
            id: i64_to_string(resp.id),
            parent_event_id: Some(i64_to_string(issue_id)),
            name: resp.event,
            link: None,
            date: resp.created_at,
            priority,
            row_data: s,
        };
        proof {
            assert(ev@ == issue_event_view(pre[0], issue_id, priority));
        }
        let ghost acc_old = acc.deep_view();
        acc.push(ev);
        proof {
            assert(acc.deep_view() =~= acc_old.push(ev@));
            match spec_status_events(rest.deep_view(), issue_id, priority) {
                Ok(r2) => {
                    assert(acc_old + (seq![issue_event_view(pre[0], issue_id, priority)] + r2)
                        =~= acc.deep_view() + r2);
                },
                Err(_) => {},
            }
        }
    }
    proof {
        assert(rest.deep_view() =~= Seq::<JsonView>::empty());
        assert(acc.deep_view() + Seq::<EventView>::empty() =~= acc.deep_view());
    }
    Ok(acc)
}

/// Scanning forward for an id: while the entries before the cursor do not
/// hold it, the first hit from the cursor on is the first hit overall.
proof fn lemma_child_idx_skip(children: Seq<ItemChildrenView>, id: i64, i: int)
    requires
        0 <= i <= children.len(),
        forall|m: int| 0 <= m < i ==> (#[trigger] children[m]).issue_id != id,
    ensures
        child_idx(children, id) == if child_idx(children.skip(i), id) < 0 {
            -1int
        } else {
            i + child_idx(children.skip(i), id)
        },
    decreases i,
{
    if i == 0 {
        assert(children.skip(0) =~= children);
    } else {
        lemma_child_idx_skip(children.drop_first(), id, i - 1);
        assert(children.drop_first().skip(i - 1) =~= children.skip(i));
    }
}

/// Takes the child collections of the first children entry carrying the
/// item's id, consuming that entry; without one, empty collections, and the
/// entries stay as they were.
fn take_child(children: &mut Vec<ItemChildren>, id: i64) -> (r: (
    Result<Vec<Json>, String>,
    Result<Vec<Json>, String>,
))
    ensures
        collect_result_view(r.0) == child_collections(old(children).deep_view(), id).0,
        collect_result_view(r.1) == child_collections(old(children).deep_view(), id).1,
        final(children).deep_view() == consume_child(old(children).deep_view(), id),
{
    let ghost dv = old(children).deep_view();
    let mut i: usize = 0;
    while i < children.len()
        invariant
            i <= children@.len(),
            dv == old(children).deep_view(),
            children@ == old(children)@,
            dv.len() == children@.len(),
            forall|m: int| 0 <= m < i ==> (#[trigger] dv[m]).issue_id != id,
        decreases children@.len() - i,
    {
        if children[i].issue_id == id {
            proof {
                lemma_child_idx_skip(dv, id, i as int);
                assert(dv.skip(i as int)[0] == dv[i as int]);
                assert(child_idx(dv, id) == i as int);
            }
            let entry = children.remove(i);
            proof {
                assert(entry@ == dv[i as int]);
                assert(children.deep_view() =~= dv.remove(i as int));
            }
            return (entry.comments, entry.status_events);
        }
        i = i + 1;
    }
    let empty_comments: Vec<Json> = Vec::new();
    let empty_status: Vec<Json> = Vec::new();
    proof {
        lemma_child_idx_skip(dv, id, i as int);
        assert(dv.skip(i as int) =~= Seq::<ItemChildrenView>::empty());
        assert(child_idx(dv, id) < 0);
        assert(empty_comments.deep_view() =~= Seq::<JsonView>::empty());
        assert(empty_status.deep_view() =~= Seq::<JsonView>::empty());
    }
    (Ok(empty_comments), Ok(empty_status))
}

/// The mathematical shape of an aggregation result.
pub open spec fn agg_result_view(r: Result<Vec<Event>, AggregateError>) -> Result<
    Seq<EventView>,
    AggregateErrorView,
> {
    match r {
        Ok(evs) => Ok(evs.deep_view()),
        Err(e) => Err(e@),
    }
}

/// A built prefix prepended onto the outcome of the remaining primary items.
pub open spec fn prepend_agg(
    acc: Seq<EventView>,
    r: Result<Seq<EventView>, AggregateErrorView>,
) -> Result<Seq<EventView>, AggregateErrorView> {
    match r {
        Ok(rest) => Ok(acc + rest),
        Err(e) => Err(e),
    }
}

/// Aggregates one repository query from already-fetched vendor data, per
/// [`spec_aggregate`]: primary items stay in pagination order, a non-matching
/// item is skipped entirely, and a matched item's events are its comments',
/// then its status events', then its own.
#[verifier::rlimit(100)]
pub fn get_prs_events_from(snap: RepoSnapshot, query: &PullRequest) -> (r: Result<
    Vec<Event>,
    AggregateError,
>)
    ensures
        agg_result_view(r) == spec_aggregate(snap@, query@),
{
    let RepoSnapshot { pull_requests, children } = snap;
    let prs = match pull_requests {
        Ok(prs) => prs,
        Err(m) => {
            return Err(AggregateError::Transport(m));
        },
    };
    let ghost pv = prs.deep_view();
    let ghost cv0 = children.deep_view();
    let mut children = children;
    let mut rest = prs;
    let mut acc: Vec<Event> = Vec::new();
    proof {
        assert(acc.deep_view() =~= Seq::<EventView>::empty());
    }
    while rest.len() > 0
        invariant
            spec_aggregate(snap@, query@) == spec_item_events(pv, cv0, query@),
            spec_item_events(pv, cv0, query@) == prepend_agg(
                acc.deep_view(),
                spec_item_events(rest.deep_view(), children.deep_view(), query@),
            ),
        decreases rest@.len(),
    {
        let ghost pre = rest.deep_view();
        let pr = rest.remove(0);
        proof {
            assert(rest.deep_view() =~= pre.drop_first());
            assert(pr@ == pre[0]);
        }
        let resp = match parse_pull_request(&pr) {
            Ok(resp) => resp,
            Err(e) => {
                return Err(AggregateError::Malformed(e));
            },
        };
        let matched = match is_match_filters(&pr, &query.filters) {
            Ok(b) => b,
            Err(e) => {
                return Err(AggregateError::Filter(e));
            },
        };
        if matched {
            let (comments_r, status_r) = take_child(&mut children, resp.number);
            let comments = match comments_r {
                Ok(cs) => cs,
                Err(m) => {
                    return Err(AggregateError::Transport(m));
                },
            };
            let mut cevs = match build_comment_events(comments, resp.number, query.priority) {
                Ok(v) => v,
                Err(e) => {
                    return Err(AggregateError::Malformed(e));
                },
            };
            let status_events = match status_r {
                Ok(ss) => ss,
                Err(m) => {
                    return Err(AggregateError::Transport(m));
                },
            };
            let mut sevs = match build_status_events(status_events, resp.number, query.priority) {
                Ok(v) => v,
                Err(e) => {
                    return Err(AggregateError::Malformed(e));
                },
            };
            let ghost acc_old = acc.deep_view();
            let ghost cevs_dv = cevs.deep_view();
            let ghost sevs_dv = sevs.deep_view();
            acc.append(&mut cevs);
            proof {
                assert(acc.deep_view() =~= acc_old + cevs_dv);
            }
            let ghost acc_mid = acc.deep_view();
            acc.append(&mut sevs);
            proof {
                assert(acc.deep_view() =~= acc_mid + sevs_dv);
            }
            let ev = Event {
                kind: EventKind::PR,
                id: i64_to_string(resp.number),
                parent_event_id: None,
                name: resp.title,
                link: Some(resp.html_url),
                date: resp.updated_at,
                priority: query.priority,
                row_data: pr,
            };
            proof {
                assert(ev@ == pr_event_view(pre[0], query@.priority));
            }
            let ghost acc_two = acc.deep_view();
            acc.push(ev);
            proof {
                assert(acc.deep_view() =~= acc_two.push(ev@));
                match spec_item_events(rest.deep_view(), children.deep_view(), query@) {
                    Ok(r2) => {
                        assert(acc_old + (cevs_dv + sevs_dv + seq![
                            pr_event_view(pre[0], query@.priority),
                        ] + r2) =~= acc.deep_view() + r2);
                    },
                    Err(_) => {},
                }
            }
        }
    }
    proof {
        assert(rest.deep_view() =~= Seq::<JsonView>::empty());
        assert(acc.deep_view() + Seq::<EventView>::empty() =~= acc.deep_view());
    }
    Ok(acc)
}

/// Runs repository queries against already-fetched vendor data, one snapshot
/// per query in configuration order, per [`spec_run`]: the successes' events
/// concatenated, the failures kept aside, never mixed in.
pub fn get_events_from(snaps: Vec<RepoSnapshot>, queries: &Vec<PullRequest>) -> (r: (
    Vec<Event>,
    Vec<AggregateError>,
))
    requires
        snaps@.len() == queries@.len(),
    ensures
        r.0.deep_view() == spec_run(snaps.deep_view(), queries.deep_view()).0,
        r.1.deep_view() == spec_run(snaps.deep_view(), queries.deep_view()).1,
{
    let ghost sv = snaps.deep_view();
    let ghost qv = queries.deep_view();
    let n: usize = queries.len();
    let mut rest = snaps;
    let mut i: usize = 0;
    let mut events: Vec<Event> = Vec::new();
    let mut failures: Vec<AggregateError> = Vec::new();
    proof {
        assert(events.deep_view() =~= Seq::<EventView>::empty());
        assert(failures.deep_view() =~= Seq::<AggregateErrorView>::empty());
        assert(rest.deep_view() =~= sv.skip(0));
        assert(qv.skip(0) =~= qv);
    }
    while rest.len() > 0
        invariant
            sv == snaps.deep_view(),
            qv == queries.deep_view(),
            sv.len() == qv.len(),
            qv.len() == n,
            i + rest@.len() == sv.len(),
            i <= qv.len(),
            rest.deep_view() =~= sv.skip(i as int),
            spec_run(sv, qv).0 == events.deep_view() + spec_run(
                rest.deep_view(),
                qv.skip(i as int),
            ).0,
            spec_run(sv, qv).1 == failures.deep_view() + spec_run(
                rest.deep_view(),
                qv.skip(i as int),
            ).1,
        decreases rest@.len(),
    {
        let ghost spre = rest.deep_view();
        let snap = rest.remove(0);
        proof {
            assert(rest.deep_view() =~= spre.drop_first());
            assert(snap@ == spre[0]);
            assert(qv.skip(i as int)[0] == qv[i as int]);
            assert(qv.skip(i as int).drop_first() =~= qv.skip(i as int + 1));
        }
        match get_prs_events_from(snap, &queries[i]) {
            Ok(mut evs) => {
                let ghost edv = evs.deep_view();
                let ghost events_old = events.deep_view();
                events.append(&mut evs);
                proof {
                    assert(events.deep_view() =~= events_old + edv);
                    assert(events_old + (edv + spec_run(
                        rest.deep_view(),
                        qv.skip(i as int + 1),
                    ).0) =~= events.deep_view() + spec_run(
                        rest.deep_view(),
                        qv.skip(i as int + 1),
                    ).0);
                }
            },
            Err(e) => {
                let ghost failures_old = failures.deep_view();
                let ghost ev = e@;
                failures.push(e);
                proof {
                    assert(failures.deep_view() =~= failures_old.push(ev));
                    assert(failures_old + (seq![ev] + spec_run(
                        rest.deep_view(),
                        qv.skip(i as int + 1),
                    ).1) =~= failures.deep_view() + spec_run(
                        rest.deep_view(),
                        qv.skip(i as int + 1),
                    ).1);
                }
            },
        }
        i = i + 1;
    }
    proof {
        assert(rest.deep_view() =~= Seq::<RepoSnapshotView>::empty());
        assert(events.deep_view() + Seq::<EventView>::empty() =~= events.deep_view());
        assert(failures.deep_view() + Seq::<AggregateErrorView>::empty() =~= failures.deep_view());
    }
    (events, failures)
}

/// The linkage shape every aggregated event has: it carries the owning
/// query's priority, and its kind fixes its linkage — a primary item has no
/// parent id, a comment or status event has one.
pub open spec fn event_shape_ok(e: EventView, priority: usize) -> bool {
    &&& e.priority == priority
    &&& (e.kind is PR <==> e.parent_event_id is None)
}

/// The event has the linkage shape of one of the given queries.
pub open spec fn has_owning_query(e: EventView, qs: Seq<PullRequestView>) -> bool {
    exists|m: int| 0 <= m < qs.len() && event_shape_ok(e, (#[trigger] qs[m]).priority)
}

/// Reading a built comment-event list element by element.
pub proof fn lemma_comment_events_index(cs: Seq<JsonView>, issue_id: i64, priority: usize)
    requires
        spec_comment_events(cs, issue_id, priority) is Ok,
    ensures
        spec_comment_events(cs, issue_id, priority)->Ok_0.len() == cs.len(),
        forall|i: int|
            0 <= i < cs.len() ==> spec_comment_events(cs, issue_id, priority)->Ok_0[i]
                == comment_event_view(cs[i], issue_id, priority),
    decreases cs.len(),
{
    if cs.len() > 0 {
        lemma_comment_events_index(cs.drop_first(), issue_id, priority);
    }
}

/// Reading a built status-event list element by element.
pub proof fn lemma_status_events_index(ss: Seq<JsonView>, issue_id: i64, priority: usize)
    requires
        spec_status_events(ss, issue_id, priority) is Ok,
    ensures
        spec_status_events(ss, issue_id, priority)->Ok_0.len() == ss.len(),
        forall|i: int|
            0 <= i < ss.len() ==> spec_status_events(ss, issue_id, priority)->Ok_0[i]
                == issue_event_view(ss[i], issue_id, priority),
    decreases ss.len(),
{
    if ss.len() > 0 {
        lemma_status_events_index(ss.drop_first(), issue_id, priority);
    }
}

/// Every event an aggregation emits carries the query's priority, and its
/// kind fixes its linkage.
pub proof fn lemma_item_events_shape(
    prs: Seq<JsonView>,
    children: Seq<ItemChildrenView>,
    q: PullRequestView,
)
    requires
        spec_item_events(prs, children, q) is Ok,
    ensures
        forall|i: int|
            0 <= i < spec_item_events(prs, children, q)->Ok_0.len() ==> event_shape_ok(
                #[trigger] spec_item_events(prs, children, q)->Ok_0[i],
                q.priority,
            ),
    decreases prs.len(),
{
    if prs.len() > 0 {
        let pr = prs[0];
        match spec_parse_pr(pr) {
            Err(_) => {},
            Ok(resp) => {
                match spec_match_filters(pr, q.filters) {
                    Err(_) => {},
                    Ok(m) => {
                        if !m {
                            lemma_item_events_shape(prs.drop_first(), children, q);
                        } else {
                            let cs = child_collections(children, resp.number).0->Ok_0;
                            let ss = child_collections(children, resp.number).1->Ok_0;
                            let cevs = spec_comment_events(cs, resp.number, q.priority)->Ok_0;
                            let sevs = spec_status_events(ss, resp.number, q.priority)->Ok_0;
                            let rest = spec_item_events(
                                prs.drop_first(),
                                consume_child(children, resp.number),
                                q,
                            )->Ok_0;
                            let whole = spec_item_events(prs, children, q)->Ok_0;
                            lemma_comment_events_index(cs, resp.number, q.priority);
                            lemma_status_events_index(ss, resp.number, q.priority);
                            lemma_item_events_shape(
                                prs.drop_first(),
                                consume_child(children, resp.number),
                                q,
                            );
                            assert(whole == cevs + sevs + seq![pr_event_view(pr, q.priority)]
                                + rest);
                            assert forall|i: int| 0 <= i < whole.len() implies event_shape_ok(
                                #[trigger] whole[i],
                                q.priority,
                            ) by {
                                let cl = cevs.len() as int;
                                let sl = sevs.len() as int;
                                if i < cl {
                                    assert(whole[i] == cevs[i]);
                                } else if i < cl + sl {
                                    assert(whole[i] == sevs[i - cl]);
                                } else if i == cl + sl {
                                    assert(whole[i] == pr_event_view(pr, q.priority));
                                } else {
                                    assert(whole[i] == rest[i - (cl + sl + 1)]);
                                }
                            }
                        }
                    },
                }
            },
        }
    }
}

/// Every event a run returns has the linkage shape of one of its queries.
pub proof fn lemma_run_shape(snaps: Seq<RepoSnapshotView>, qs: Seq<PullRequestView>)
    ensures
        forall|i: int|
            0 <= i < spec_run(snaps, qs).0.len() ==> has_owning_query(
                #[trigger] spec_run(snaps, qs).0[i],
                qs,
            ),
    decreases qs.len(),
{
    if qs.len() > 0 && snaps.len() > 0 {
        lemma_run_shape(snaps.drop_first(), qs.drop_first());
        let rest = spec_run(snaps.drop_first(), qs.drop_first()).0;
        let whole = spec_run(snaps, qs).0;
        match spec_aggregate(snaps[0], qs[0]) {
            Ok(evs) => {
                let prs = snaps[0].pull_requests->Ok_0;
                lemma_item_events_shape(prs, snaps[0].children, qs[0]);
                assert(whole == evs + rest);
                assert forall|i: int| 0 <= i < whole.len() implies has_owning_query(
                    #[trigger] whole[i],
                    qs,
                ) by {
                    if i < evs.len() {
                        assert(whole[i] == evs[i]);
                        assert(evs[i] == spec_item_events(
                            prs,
                            snaps[0].children,
                            qs[0],
                        )->Ok_0[i]);
                        assert(event_shape_ok(whole[i], qs[0].priority));
                    } else {
                        assert(whole[i] == rest[i - evs.len()]);
                        assert(has_owning_query(rest[i - evs.len()], qs.drop_first()));
                        let m = choose|m: int|
                            0 <= m < qs.drop_first().len() && event_shape_ok(
                                rest[i - evs.len()],
                                (#[trigger] qs.drop_first()[m]).priority,
                            );
                        assert(qs.drop_first()[m] == qs[m + 1]);
                        assert(event_shape_ok(whole[i], qs[m + 1].priority));
                    }
                }
            },
            Err(_) => {
                assert(whole == rest);
                assert forall|i: int| 0 <= i < whole.len() implies has_owning_query(
                    #[trigger] whole[i],
                    qs,
                ) by {
                    assert(has_owning_query(rest[i], qs.drop_first()));
                    let m = choose|m: int|
                        0 <= m < qs.drop_first().len() && event_shape_ok(
                            rest[i],
                            (#[trigger] qs.drop_first()[m]).priority,
                        );
                    assert(qs.drop_first()[m] == qs[m + 1]);
                    assert(event_shape_ok(whole[i], qs[m + 1].priority));
                }
            },
        }
    }
}

/// The ids a gather collects children for: one per primary item that parses
/// and matches, in order, stopping at the first item whose parse or filter
/// evaluation fails — aggregation aborts there, so nothing later is read.
pub open spec fn spec_gathered_ids(prs: Seq<JsonView>, q: PullRequestView) -> Seq<i64>
    decreases prs.len(),
{
    if prs.len() == 0 {
        Seq::empty()
    } else {
        match spec_parse_pr(prs[0]) {
            Err(_) => Seq::empty(),
            Ok(resp) => match spec_match_filters(prs[0], q.filters) {
                Err(_) => Seq::empty(),
                Ok(m) => if m {
                    seq![resp.number] + spec_gathered_ids(prs.drop_first(), q)
                } else {
                    spec_gathered_ids(prs.drop_first(), q)
                },
            },
        }
    }
}

/// The item ids of a children list, in order.
pub open spec fn child_ids(children: Seq<ItemChildrenView>) -> Seq<i64> {
    children.map_values(|c: ItemChildrenView| c.issue_id)
}

/// What one gathered children entry promises: its status events, when their
/// fetch succeeded, all passed the creation-time recency check.
pub open spec fn child_gathered_ok(c: ItemChildrenView, since: i64) -> bool {
    c.status_events matches Ok(ss) ==> forall|j: int|
        0 <= j < ss.len() ==> spec_eligible(
            #[trigger] ss[j],
            Collection::IssueEvents { issue_id: c.issue_id },
            since,
        )
}

/// What gathering promises of the snapshot it hands to aggregation: primary
/// items that all passed the update-time recency check; one children entry
/// per parsed, matched item, in order, stopping where aggregation will abort
/// (so a skipped item's children are never fetched); recency-checked status
/// events inside each entry; and no children at all when the primary fetch
/// failed.
pub open spec fn gathered_ok(snap: RepoSnapshotView, q: PullRequestView, since: i64) -> bool {
    &&& (snap.pull_requests matches Ok(prs) ==> {
        &&& (forall|i: int|
            0 <= i < prs.len() ==> spec_eligible(
                #[trigger] prs[i],
                Collection::PullRequests,
                since,
            ))
        &&& child_ids(snap.children) == spec_gathered_ids(prs, q)
    })
    &&& (snap.pull_requests is Err ==> snap.children == Seq::<ItemChildrenView>::empty())
    &&& (forall|k: int|
        0 <= k < snap.children.len() ==> child_gathered_ok(#[trigger] snap.children[k], since))
}

/// What the live aggregation promises: its outcome is the snapshot
/// aggregation of some gathered snapshot.
pub open spec fn aggregate_outcome_ok(
    outcome: Result<Seq<EventView>, AggregateErrorView>,
    snap: RepoSnapshotView,
    q: PullRequestView,
    since: i64,
) -> bool {
    &&& gathered_ok(snap, q, since)
    &&& outcome == spec_aggregate(snap, q)
}

/// What a live run promises: its outcome is the snapshot run of some
/// gathered snapshots, one per configured query, under one shared cutoff.
pub open spec fn run_outcome_ok(
    events: Seq<EventView>,
    failures: Seq<AggregateErrorView>,
    snaps: Seq<RepoSnapshotView>,
    qs: Seq<PullRequestView>,
    since: i64,
) -> bool {
    &&& snaps.len() == qs.len()
    &&& (forall|k: int| 0 <= k < snaps.len() ==> gathered_ok(#[trigger] snaps[k], qs[k], since))
    &&& events == spec_run(snaps, qs).0
    &&& failures == spec_run(snaps, qs).1
}

/// Gathers what the vendor returns for one repository query: the primary
/// items, and the child collections of each item the filter set matches. A
/// child fetch happens only for a matched item, and gathering stops at the
/// first item the aggregation will abort on, so nothing is fetched that the
/// aggregation will not read.
fn gather_snapshot<C: PageFetcher>(client: &C, query: &PullRequest, since: i64) -> (r:
    RepoSnapshot)
    ensures
        gathered_ok(r@, query@, since),
{
    let pull_requests = fetch_collection(
        client,
        query.owner.as_str(),
        query.repo.as_str(),
        &Collection::PullRequests,
        since,
    );
    let mut children: Vec<ItemChildren> = Vec::new();
    proof {
        assert(children.deep_view() =~= Seq::<ItemChildrenView>::empty());
        assert(child_ids(Seq::<ItemChildrenView>::empty()) =~= Seq::<i64>::empty());
    }
    if let Ok(prs) = &pull_requests {
        let ghost pv = prs.deep_view();
        let mut i: usize = 0;
        let mut stop = false;
        proof {
            assert(pv.skip(0) =~= pv);
        }
        while !stop && i < prs.len()
            invariant
                i <= prs@.len(),
                pv == prs.deep_view(),
                pv.len() == prs@.len(),
                !stop ==> child_ids(children.deep_view()) + spec_gathered_ids(
                    pv.skip(i as int),
                    query@,
                ) =~= spec_gathered_ids(pv, query@),
                stop ==> child_ids(children.deep_view()) =~= spec_gathered_ids(pv, query@),
                forall|k: int|
                    0 <= k < children.deep_view().len() ==> child_gathered_ok(
                        #[trigger] children.deep_view()[k],
                        since,
                    ),
            decreases prs@.len() - i + (if stop { 0int } else { 1int }),
        {
            proof {
                assert(pv.skip(i as int)[0] == pv[i as int]);
                assert(prs@[i as int]@ == pv[i as int]);
                assert(pv.skip(i as int).drop_first() =~= pv.skip(i as int + 1));
            }
            match parse_pull_request(&prs[i]) {
                Err(_) => {
                    stop = true;
                },
                Ok(resp) => {
                    match is_match_filters(&prs[i], &query.filters) {
                        Err(_) => {
                            stop = true;
                        },
                        Ok(matched) => {
                            if matched {
                                let comments = fetch_collection(
                                    client,
                                    query.owner.as_str(),
                                    query.repo.as_str(),
                                    &Collection::IssueComments { issue_id: resp.number },
                                    since,
                                );
                                let status_events = fetch_collection(
                                    client,
                                    query.owner.as_str(),
                                    query.repo.as_str(),
                                    &Collection::IssueEvents { issue_id: resp.number },
                                    since,
                                );
                                let ghost cdv = children.deep_view();
                                let entry = ItemChildren {
                                    issue_id: resp.number,
                                    comments,
                                    status_events,
                                };
                                proof {
                                    assert(child_gathered_ok(entry@, since));
                                }
                                children.push(entry);
                                proof {
                                    assert(children.deep_view() =~= cdv.push(
                                        ItemChildrenView {
                                            issue_id: resp.number,
                                            comments: collect_result_view(entry.comments),
                                            status_events: collect_result_view(
                                                entry.status_events,
                                            ),
                                        },
                                    ));
                                    assert(child_ids(children.deep_view()) =~= child_ids(
                                        cdv,
                                    ).push(resp.number));
                                    assert(child_ids(cdv).push(resp.number)
                                        + spec_gathered_ids(pv.skip(i as int + 1), query@)
                                        =~= child_ids(cdv) + (seq![resp.number]
                                        + spec_gathered_ids(pv.skip(i as int + 1), query@)));
                                }
                            }
                            i = i + 1;
                        },
                    }
                },
            }
        }
        proof {
            if !stop {
                assert(pv.skip(i as int) =~= Seq::<JsonView>::empty());
            }
            assert(child_ids(children.deep_view()) + Seq::<i64>::empty() =~= child_ids(
                children.deep_view(),
            ));
        }
    }
    let snapshot = RepoSnapshot { pull_requests, children };
    proof {
        match snapshot@.pull_requests {
            Ok(prsv) => {
                assert(snapshot.pull_requests matches Ok(items) && prsv == items.deep_view());
            },
            Err(_) => {
                assert(snapshot.children.deep_view() =~= Seq::<ItemChildrenView>::empty());
            },
        }
    }
    snapshot
}

/// Aggregates one repository query by fetching live through the client:
/// primary items updated after `since`, the filter set deciding inclusion; a
/// matched item's comments and status events are fetched, a skipped item's
/// never. The gathered data is aggregated by [`get_prs_events_from`], whose
/// contract pins the outcome; every returned event carries the query's
/// priority and its kind's linkage.
pub fn get_prs_events<C: PageFetcher>(client: &C, pr_filters: &PullRequest, since: i64) -> (r:
    Result<Vec<Event>, AggregateError>)
    ensures
        exists|snap: RepoSnapshotView| aggregate_outcome_ok(
            agg_result_view(r),
            snap,
            pr_filters@,
            since,
        ),
        r matches Ok(evs) ==> forall|i: int|
            0 <= i < evs.deep_view().len() ==> event_shape_ok(
                #[trigger] evs.deep_view()[i],
                pr_filters@.priority,
            ),
{
    let snapshot = gather_snapshot(client, pr_filters, since);
    let ghost sv = snapshot@;
    let r = get_prs_events_from(snapshot, pr_filters);
    proof {
        assert(aggregate_outcome_ok(agg_result_view(r), sv, pr_filters@, since));
        if r is Ok {
            match sv.pull_requests {
                Ok(prs) => {
                    lemma_item_events_shape(prs, sv.children, pr_filters@);
                    assert forall|i: int|
                        0 <= i < (r->Ok_0).deep_view().len() implies event_shape_ok(
                        #[trigger] (r->Ok_0).deep_view()[i],
                        pr_filters@.priority,
                    ) by {
                        assert((r->Ok_0).deep_view()[i] == spec_item_events(
                            prs,
                            sv.children,
                            pr_filters@,
                        )->Ok_0[i]);
                    }
                },
                Err(_) => {},
            }
        }
    }
    r
}

/// A vendor bound to a page fetcher: runs configured repository queries and
/// merges their event streams.
pub struct GitHub<C: PageFetcher> {
    pub client: C,
}

impl<C: PageFetcher> GitHub<C> {
    /// Runs every configured repository query with the given frozen cutoff,
    /// gathering each query's vendor data and handing it to
    /// [`get_events_from`], whose contract pins the outcome: the events of
    /// the queries that succeeded, concatenated in configuration order, and
    /// the failures kept aside, never mixed into the events. Every event
    /// carries the priority of one configured query and its kind's linkage.
    pub fn get_events_since(&self, config: &Config, since: i64) -> (r: (
        Vec<Event>,
        Vec<AggregateError>,
    ))
        ensures
            exists|snaps: Seq<RepoSnapshotView>| run_outcome_ok(
                r.0.deep_view(),
                r.1.deep_view(),
                snaps,
                config.queries(),
                since,
            ),
            forall|i: int|
                0 <= i < r.0.deep_view().len() ==> has_owning_query(
                    #[trigger] r.0.deep_view()[i],
                    config.queries(),
                ),
    {
        let queries = match &config.repositories.pull_request {
            Some(qs) => qs,
            None => {
                let no_events: Vec<Event> = Vec::new();
                let no_failures: Vec<AggregateError> = Vec::new();
                proof {
                    assert(no_events.deep_view() =~= Seq::<EventView>::empty());
                    assert(no_failures.deep_view() =~= Seq::<AggregateErrorView>::empty());
                    assert(run_outcome_ok(
                        no_events.deep_view(),
                        no_failures.deep_view(),
                        Seq::<RepoSnapshotView>::empty(),
                        config.queries(),
                        since,
                    ));
                }
                let result = (no_events, no_failures);
                proof {
                    assert(result.0 == no_events);
                    assert(result.0.deep_view() == no_events.deep_view());
                    assert(run_outcome_ok(
                        result.0.deep_view(),
                        result.1.deep_view(),
                        Seq::<RepoSnapshotView>::empty(),
                        config.queries(),
                        since,
                    ));
                    assert(exists|snaps: Seq<RepoSnapshotView>| run_outcome_ok(
                        result.0.deep_view(),
                        result.1.deep_view(),
                        snaps,
                        config.queries(),
                        since,
                    ));
                }
                return result;
            },
        };
        let mut snaps: Vec<RepoSnapshot> = Vec::new();
        let mut k: usize = 0;
        while k < queries.len()
            invariant
                snaps@.len() == k,
                k <= queries@.len(),
                forall|m: int|
                    0 <= m < snaps.deep_view().len() ==> gathered_ok(
                        #[trigger] snaps.deep_view()[m],
                        queries.deep_view()[m],
                        since,
                    ),
            decreases queries@.len() - k,
        {
            let ghost before = snaps.deep_view();
            let snap = gather_snapshot(&self.client, &queries[k], since);
            proof {
                assert(queries@[k as int]@ == queries.deep_view()[k as int]);
            }
            snaps.push(snap);
            proof {
                assert(snaps.deep_view() =~= before.push(snap@));
            }
            k = k + 1;
        }
        let ghost sv = snaps.deep_view();
        let r = get_events_from(snaps, queries);
        proof {
            assert(run_outcome_ok(
                r.0.deep_view(),
                r.1.deep_view(),
                sv,
                config.queries(),
                since,
            ));
            lemma_run_shape(sv, queries.deep_view());
            assert forall|i: int|
                0 <= i < r.0.deep_view().len() implies has_owning_query(
                #[trigger] r.0.deep_view()[i],
                config.queries(),
            ) by {
                assert(r.0.deep_view()[i] == spec_run(sv, queries.deep_view()).0[i]);
                assert(has_owning_query(r.0.deep_view()[i], queries.deep_view()));
            }
        }
        r
    }

    /// Runs every configured repository query over the trailing window ending
    /// now: one cutoff `now - minutes_ago` (in minutes), computed once and
    /// shared by all queries. Per-repository failures are isolated and then
    /// absorbed; the call itself always succeeds.
    pub fn get_events(&self, config: &Config, minutes_ago: i64) -> (r: Result<
        Vec<Event>,
        AggregateError,
    >)
        ensures
            r is Ok,
            exists|snaps: Seq<RepoSnapshotView>, cutoff: i64, fails: Seq<AggregateErrorView>|
                run_outcome_ok(r->Ok_0.deep_view(), fails, snaps, config.queries(), cutoff),
            forall|i: int|
                0 <= i < r->Ok_0.deep_view().len() ==> has_owning_query(
                    #[trigger] r->Ok_0.deep_view()[i],
                    config.queries(),
                ),
    {
        let window = minutes_to_millis(minutes_ago);
        let since = saturating_sub_i64(now_ts(), window);
        let (events, dropped_failures) = self.get_events_since(config, since);
        let result: Result<Vec<Event>, AggregateError> = Ok(events);
        proof {
            let snaps = choose|snaps: Seq<RepoSnapshotView>|
                run_outcome_ok(
                    result->Ok_0.deep_view(),
                    dropped_failures.deep_view(),
                    snaps,
                    config.queries(),
                    since,
                );
            assert(run_outcome_ok(
                result->Ok_0.deep_view(),
                dropped_failures.deep_view(),
                snaps,
                config.queries(),
                since,
            ));
            assert(exists|s2: Seq<RepoSnapshotView>, cutoff: i64, fails: Seq<AggregateErrorView>|
                run_outcome_ok(result->Ok_0.deep_view(), fails, s2, config.queries(), cutoff));
        }
        result
    }
}

/// A primary item that does not match the filter set is excluded entirely: it
/// contributes no events and consumes no child data, so the outcome is what
/// the remaining items alone give — its child collections are never needed.
pub proof fn lemma_nonmatching_item_excluded(
    prs: Seq<JsonView>,
    children: Seq<ItemChildrenView>,
    q: PullRequestView,
)
    requires
        prs.len() > 0,
        spec_parse_pr(prs[0]) is Ok,
        spec_match_filters(prs[0], q.filters) == Ok::<bool, FilterErrorView>(false),
    ensures
        spec_item_events(prs, children, q) == spec_item_events(prs.drop_first(), children, q),
{
}

/// Running the orchestrator twice over the same vendor data and the same
/// queries yields the identical event sequence and the identical failure
/// list: a run is a function of its inputs.
pub proof fn lemma_run_idempotent(
    snaps: Seq<RepoSnapshotView>,
    qs: Seq<PullRequestView>,
    r1: (Seq<EventView>, Seq<AggregateErrorView>),
    r2: (Seq<EventView>, Seq<AggregateErrorView>),
)
    requires
        r1 == spec_run(snaps, qs),
        r2 == spec_run(snaps, qs),
    ensures
        r1 == r2,
{
}

/// Failure isolation: when the first query's aggregation fails, the run's
/// event sequence is exactly the remaining queries' events, and the failure
/// is recorded aside, never mixed into the sequence.
pub proof fn lemma_failure_isolated(snaps: Seq<RepoSnapshotView>, qs: Seq<PullRequestView>)
    requires
        snaps.len() > 0,
        qs.len() > 0,
        spec_aggregate(snaps[0], qs[0]) is Err,
    ensures
        spec_run(snaps, qs).0 == spec_run(snaps.drop_first(), qs.drop_first()).0,
        spec_run(snaps, qs).1 == seq![spec_aggregate(snaps[0], qs[0])->Err_0] + spec_run(
            snaps.drop_first(),
            qs.drop_first(),
        ).1,
{
}

} // verus!
