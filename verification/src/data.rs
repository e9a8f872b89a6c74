//! Public structs: events, filter conditions, and repository queries.
use vstd::prelude::*;

use crate::json::{Json, JsonView};

verus! {

/// The kind of data fetched from the vendor.
#[derive(Clone, Copy, PartialEq, Eq, Structural, Debug)]
pub enum EventKind {
    PR,
    PrComment,
    PrEvent,
}

/// One normalized event returned from a vendor. `parent_event_id` is set for
/// comments and status events (the owning primary item's id) and unset for
/// primary items; `priority` is copied from the owning repository query;
/// `date` is a millisecond timestamp. `row_data` carries the raw fetched
/// object in the library's [`Json`] shape — a fractional number in the raw
/// payload is held as `Null` there, since the pipeline reads strings and
/// integer identifiers only.
pub struct Event {
    pub kind: EventKind,
    pub id: String,
    pub parent_event_id: Option<String>,
    pub name: String,
    pub link: Option<String>,
    pub date: Option<i64>,
    pub priority: usize,
    pub row_data: Json,
}

/// The mathematical shape of an [`Event`].
pub ghost struct EventView {
    pub kind: EventKind,
    pub id: Seq<char>,
    pub parent_event_id: Option<Seq<char>>,
    pub name: Seq<char>,
    pub link: Option<Seq<char>>,
    pub date: Option<i64>,
    pub priority: usize,
    pub row_data: JsonView,
}

/// The view of an optional string.
pub open spec fn opt_view(o: Option<String>) -> Option<Seq<char>> {
    match o {
        Some(s) => Some(s@),
        None => None,
    }
}

impl View for Event {
    type V = EventView;

    open spec fn view(&self) -> EventView {
        EventView {
            kind: self.kind,
            id: self.id@,
            parent_event_id: opt_view(self.parent_event_id),
            name: self.name@,
            link: opt_view(self.link),
            date: self.date,
            priority: self.priority,
            row_data: self.row_data@,
        }
    }
}

impl DeepView for Event {
    type V = EventView;

    open spec fn deep_view(&self) -> EventView {
        self.view()
    }
}

/// Operation type on the JSON value.
#[derive(Clone, Copy, PartialEq, Eq, Structural, Debug)]
pub enum Operation {
    Equal,
    Contains,
}

/// One filter condition: a path query, the candidate values, and the
/// operation that compares an extracted value against a candidate.
#[derive(Clone, Debug)]
pub struct Filter {
    pub query: String,
    pub values: Vec<String>,
    pub operation: Operation,
}

/// The mathematical shape of a [`Filter`].
pub ghost struct FilterView {
    pub query: Seq<char>,
    pub values: Seq<Seq<char>>,
    pub operation: Operation,
}

impl View for Filter {
    type V = FilterView;

    open spec fn view(&self) -> FilterView {
        FilterView { query: self.query@, values: self.values.deep_view(), operation: self.operation }
    }
}

impl DeepView for Filter {
    type V = FilterView;

    open spec fn deep_view(&self) -> FilterView {
        self.view()
    }
}

/// One repository query: which repository to pull, the priority its events
/// carry, and the filter set a primary item must satisfy.
#[derive(Clone, Debug)]
pub struct PullRequest {
    pub owner: String,
    pub repo: String,
    pub priority: usize,
    pub filters: Vec<Filter>,
}

/// The mathematical shape of a [`PullRequest`] query.
pub ghost struct PullRequestView {
    pub owner: Seq<char>,
    pub repo: Seq<char>,
    pub priority: usize,
    pub filters: Seq<FilterView>,
}

impl View for PullRequest {
    type V = PullRequestView;

    open spec fn view(&self) -> PullRequestView {
        PullRequestView {
            owner: self.owner@,
            repo: self.repo@,
            priority: self.priority,
            filters: self.filters.deep_view(),
        }
    }
}

impl DeepView for PullRequest {
    type V = PullRequestView;

    open spec fn deep_view(&self) -> PullRequestView {
        self.view()
    }
}

/// The repository queries of one configuration, per collection kind.
#[derive(Clone, Debug)]
pub struct Repositories {
    pub pull_request: Option<Vec<PullRequest>>,
}

/// A configuration: the repository queries of one run.
#[derive(Clone, Debug)]
pub struct Config {
    pub repositories: Repositories,
}

impl Config {
    /// The queries a run works through, in configuration order.
    pub open spec fn queries(&self) -> Seq<PullRequestView> {
        match self.repositories.pull_request {
            Some(qs) => qs.deep_view(),
            None => Seq::empty(),
        }
    }
}

} // verus!
