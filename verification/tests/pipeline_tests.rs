use webql::client::{collect_pages, fetch_collection, Collection, PageFetcher, PageRequest, PageResult};
use webql::data::{Config, Event, EventKind, Filter, Operation, PullRequest, Repositories};
use webql::events::{
    get_events_from, get_prs_events, get_prs_events_from, AggregateError, GitHub, ItemChildren,
    RepoSnapshot,
};
use webql::jfilter::FilterError;
use webql::json::{json_get, Json};
use webql::response::{FieldName, ParseError};
use webql::utils::{minutes_to_millis, parse_to_date_time, saturating_sub_i64};

fn ptext(s: &str) -> Json {
    Json::Text(s.to_string())
}

fn pobj(pairs: Vec<(&str, Json)>) -> Json {
    Json::Obj(pairs.into_iter().map(|(k, v)| (k.to_string(), v)).collect())
}

fn ts(s: &str) -> i64 {
    parse_to_date_time(s).unwrap()
}

fn item(id: i64, updated_at: &str) -> Json {
    pobj(vec![("id", Json::Num(id)), ("updated_at", ptext(updated_at))])
}

fn pr_raw(number: i64, login: &str) -> Json {
    pobj(vec![
        ("number", Json::Num(number)),
        ("html_url", ptext("https://example.test/pulls/1")),
        ("title", ptext("pr 1")),
        ("body", ptext("a body")),
        ("user", pobj(vec![("login", ptext(login))])),
        ("updated_at", ptext("2020-01-02T00:00:00Z")),
    ])
}

fn login_query(login: &str) -> PullRequest {
    PullRequest {
        owner: "o".to_string(),
        repo: "r".to_string(),
        priority: 1,
        filters: vec![Filter {
            query: r#""user"."login""#.to_string(),
            values: vec![login.to_string()],
            operation: Operation::Equal,
        }],
    }
}

fn json_eq(a: &Json, b: &Json) -> bool {
    match (a, b) {
        (Json::Null, Json::Null) => true,
        (Json::Bool(x), Json::Bool(y)) => x == y,
        (Json::Num(x), Json::Num(y)) => x == y,
        (Json::Text(x), Json::Text(y)) => x == y,
        (Json::Arr(x), Json::Arr(y)) => {
            x.len() == y.len() && x.iter().zip(y.iter()).all(|(p, q)| json_eq(p, q))
        }
        (Json::Obj(x), Json::Obj(y)) => {
            x.len() == y.len()
                && x.iter()
                    .zip(y.iter())
                    .all(|(p, q)| p.0 == q.0 && json_eq(&p.1, &q.1))
        }
        _ => false,
    }
}

fn event_eq(a: &Event, b: &Event) -> bool {
    a.kind == b.kind
        && a.id == b.id
        && a.parent_event_id == b.parent_event_id
        && a.name == b.name
        && a.link == b.link
        && a.date == b.date
        && a.priority == b.priority
        && json_eq(&a.row_data, &b.row_data)
}

#[test]
fn parse_to_date_time_is_rfc3339() {
    assert_eq!(parse_to_date_time("2020-01-01T00:00:00Z"), Some(1577836800000));
    assert_eq!(parse_to_date_time("not a date"), None);
}

#[test]
fn minutes_to_millis_scales() {
    assert_eq!(minutes_to_millis(1), 60000);
    assert_eq!(minutes_to_millis(0), 0);
    assert_eq!(minutes_to_millis(i64::MAX), i64::MAX);
}

#[test]
fn saturating_sub_clamps() {
    assert_eq!(saturating_sub_i64(10, 3), 7);
    assert_eq!(saturating_sub_i64(i64::MIN, 1), i64::MIN);
    assert_eq!(saturating_sub_i64(i64::MAX, -1), i64::MAX);
}

#[test]
fn pagination_keeps_eligible_items() {
    let since = ts("2020-01-01T00:00:00Z");
    let pages = vec![
        PageResult::Items(vec![
            item(1, "2020-01-02T00:00:00Z"),
            item(2, "2020-01-03T00:00:00Z"),
        ]),
        PageResult::Items(vec![
            item(3, "2020-01-02T00:00:00Z"),
            item(4, "2019-12-30T00:00:00Z"),
        ]),
        PageResult::Items(vec![]),
    ];
    let got = collect_pages(pages, &Collection::PullRequests, since).unwrap();
    assert_eq!(got.len(), 3);
    for (k, expected) in [1i64, 2, 3].iter().enumerate() {
        assert!(matches!(json_get(&got[k], "id"), Some(Json::Num(n)) if n == expected));
    }
}

#[test]
fn pagination_stops_at_non_success() {
    let since = ts("2020-01-01T00:00:00Z");
    let pages = vec![
        PageResult::Items(vec![item(1, "2020-01-02T00:00:00Z")]),
        PageResult::NonSuccess,
        PageResult::Items(vec![item(2, "2020-01-02T00:00:00Z")]),
    ];
    let got = collect_pages(pages, &Collection::PullRequests, since).unwrap();
    assert_eq!(got.len(), 1);
}

#[test]
fn pagination_transport_failure_aborts() {
    let since = ts("2020-01-01T00:00:00Z");
    let pages = vec![
        PageResult::Items(vec![item(1, "2020-01-02T00:00:00Z")]),
        PageResult::Failure("boom".to_string()),
    ];
    assert!(matches!(
        collect_pages(pages, &Collection::PullRequests, since),
        Err(ref m) if m == "boom"
    ));
}

#[test]
fn comments_skip_client_side_recency() {
    let since = ts("2020-01-01T00:00:00Z");
    let pages = vec![
        PageResult::Items(vec![pobj(vec![("id", Json::Num(1))])]),
        PageResult::Items(vec![]),
    ];
    let got = collect_pages(pages, &Collection::IssueComments { issue_id: 1 }, since).unwrap();
    assert_eq!(got.len(), 1);
}

#[test]
fn missing_timestamp_is_excluded() {
    let since = ts("2020-01-01T00:00:00Z");
    let pages = vec![PageResult::Items(vec![
        pobj(vec![("id", Json::Num(1))]),
        pobj(vec![("id", Json::Num(2)), ("updated_at", ptext("garbage"))]),
        item(3, "2020-01-02T00:00:00Z"),
    ])];
    let got = collect_pages(pages, &Collection::PullRequests, since).unwrap();
    assert_eq!(got.len(), 1);
    assert!(matches!(json_get(&got[0], "id"), Some(Json::Num(3))));
}

struct PagedClient;

impl PageFetcher for PagedClient {
    fn fetch_page(&self, req: &PageRequest) -> PageResult {
        match req.page {
            1 => PageResult::Items(vec![
                item(1, "2020-01-02T00:00:00Z"),
                item(2, "2020-01-03T00:00:00Z"),
            ]),
            2 => PageResult::Items(vec![
                item(3, "2020-01-02T00:00:00Z"),
                item(4, "2019-12-30T00:00:00Z"),
            ]),
            _ => PageResult::Items(vec![]),
        }
    }
}

#[test]
fn fetch_collection_walks_pages_in_order() {
    let since = ts("2020-01-01T00:00:00Z");
    let got = fetch_collection(&PagedClient, "o", "r", &Collection::PullRequests, since).unwrap();
    assert_eq!(got.len(), 3);
    for (k, expected) in [1i64, 2, 3].iter().enumerate() {
        assert!(matches!(json_get(&got[k], "id"), Some(Json::Num(n)) if n == expected));
    }
}

fn alice_snapshot() -> RepoSnapshot {
    let comment = pobj(vec![
        ("id", Json::Num(10)),
        ("html_url", ptext("https://example.test/c/10")),
        ("body", ptext("hello")),
    ]);
    let status = pobj(vec![
        ("id", Json::Num(20)),
        ("event", ptext("labeled")),
        ("created_at", ptext("2020-01-02T00:00:00Z")),
    ]);
    RepoSnapshot {
        pull_requests: Ok(vec![pr_raw(1, "alice")]),
        children: vec![ItemChildren {
            issue_id: 1,
            comments: Ok(vec![comment]),
            status_events: Ok(vec![status]),
        }],
    }
}

#[test]
fn aggregation_end_to_end() {
    let events = get_prs_events_from(alice_snapshot(), &login_query("alice")).unwrap();
    assert_eq!(events.len(), 3);

    assert_eq!(events[0].kind, EventKind::PrComment);
    assert_eq!(events[0].id, "10");
    assert_eq!(events[0].parent_event_id.as_deref(), Some("1"));
    assert_eq!(events[0].name, "hello");
    assert_eq!(events[0].link.as_deref(), Some("https://example.test/c/10"));
    assert_eq!(events[0].date, None);
    assert_eq!(events[0].priority, 1);

    assert_eq!(events[1].kind, EventKind::PrEvent);
    assert_eq!(events[1].id, "20");
    assert_eq!(events[1].parent_event_id.as_deref(), Some("1"));
    assert_eq!(events[1].name, "labeled");
    assert_eq!(events[1].link, None);
    assert_eq!(events[1].date, Some(ts("2020-01-02T00:00:00Z")));
    assert_eq!(events[1].priority, 1);

    assert_eq!(events[2].kind, EventKind::PR);
    assert_eq!(events[2].id, "1");
    assert_eq!(events[2].parent_event_id, None);
    assert_eq!(events[2].name, "pr 1");
    assert_eq!(events[2].link.as_deref(), Some("https://example.test/pulls/1"));
    assert_eq!(events[2].date, Some(ts("2020-01-02T00:00:00Z")));
    assert_eq!(events[2].priority, 1);
}

#[test]
fn non_matching_item_is_excluded_entirely() {
    let snapshot = RepoSnapshot {
        pull_requests: Ok(vec![pr_raw(1, "bob")]),
        children: alice_snapshot().children,
    };
    let events = get_prs_events_from(snapshot, &login_query("alice")).unwrap();
    assert_eq!(events.len(), 0);
}

struct NoChildFetches;

impl PageFetcher for NoChildFetches {
    fn fetch_page(&self, req: &PageRequest) -> PageResult {
        match req.collection {
            Collection::PullRequests => {
                if req.page == 1 {
                    PageResult::Items(vec![pr_raw(1, "bob")])
                } else {
                    PageResult::Items(vec![])
                }
            }
            _ => panic!("fetched children of an item the filter excluded"),
        }
    }
}

#[test]
fn child_fetchers_never_invoked_for_excluded_item() {
    let since = ts("2020-01-01T00:00:00Z");
    let events = get_prs_events(&NoChildFetches, &login_query("alice"), since).unwrap();
    assert_eq!(events.len(), 0);
}

#[test]
fn run_twice_yields_identical_events() {
    let queries = vec![login_query("alice")];
    let (e1, f1) = get_events_from(vec![alice_snapshot()], &queries);
    let (e2, f2) = get_events_from(vec![alice_snapshot()], &queries);
    assert_eq!(f1.len(), 0);
    assert_eq!(f2.len(), 0);
    assert_eq!(e1.len(), e2.len());
    for (a, b) in e1.iter().zip(e2.iter()) {
        assert!(event_eq(a, b));
    }
}

#[test]
fn failure_is_isolated_per_repository() {
    let failing = RepoSnapshot {
        pull_requests: Err("boom".to_string()),
        children: vec![],
    };
    let healthy = RepoSnapshot {
        pull_requests: Ok(vec![pr_raw(7, "alice")]),
        children: vec![],
    };
    let queries = vec![login_query("alice"), login_query("alice")];
    let (events, failures) = get_events_from(vec![failing, healthy], &queries);
    assert_eq!(events.len(), 1);
    assert_eq!(events[0].id, "7");
    assert_eq!(failures, vec![AggregateError::Transport("boom".to_string())]);
}

#[test]
fn malformed_item_aborts_aggregation() {
    let snapshot = RepoSnapshot {
        pull_requests: Ok(vec![pobj(vec![("title", ptext("no number"))])]),
        children: vec![],
    };
    assert!(matches!(
        get_prs_events_from(snapshot, &login_query("alice")),
        Err(AggregateError::Malformed(ParseError::Missing(FieldName::Number)))
    ));
}

#[test]
fn bad_timestamp_aborts_aggregation() {
    let mut raw = pr_raw(1, "alice");
    if let Json::Obj(ref mut pairs) = raw {
        pairs.retain(|p| p.0 != "updated_at");
        pairs.push(("updated_at".to_string(), ptext("garbage")));
    }
    let snapshot = RepoSnapshot {
        pull_requests: Ok(vec![raw]),
        children: vec![],
    };
    assert!(matches!(
        get_prs_events_from(snapshot, &login_query("alice")),
        Err(AggregateError::Malformed(ParseError::Wrong(FieldName::UpdatedAt)))
    ));
}

#[test]
fn filter_error_aborts_aggregation() {
    let snapshot = RepoSnapshot {
        pull_requests: Ok(vec![pr_raw(1, "alice")]),
        children: vec![],
    };
    let query = PullRequest {
        owner: "o".to_string(),
        repo: "r".to_string(),
        priority: 1,
        filters: vec![Filter {
            query: "!!!".to_string(),
            values: vec!["x".to_string()],
            operation: Operation::Equal,
        }],
    };
    assert!(matches!(
        get_prs_events_from(snapshot, &query),
        Err(AggregateError::Filter(FilterError::InvalidPath(_)))
    ));
}

struct EmptyUpstream;

impl PageFetcher for EmptyUpstream {
    fn fetch_page(&self, _req: &PageRequest) -> PageResult {
        PageResult::NonSuccess
    }
}

#[test]
fn get_events_over_window_with_quiet_upstream() {
    let gh = GitHub { client: EmptyUpstream };
    let config = Config {
        repositories: Repositories {
            pull_request: Some(vec![login_query("alice")]),
        },
    };
    let events = gh.get_events(&config, 10).unwrap();
    assert_eq!(events.len(), 0);
}

#[test]
fn get_events_without_queries_is_empty() {
    let gh = GitHub { client: EmptyUpstream };
    let config = Config {
        repositories: Repositories { pull_request: None },
    };
    let events = gh.get_events(&config, 10).unwrap();
    assert_eq!(events.len(), 0);
}
