//! The normalized shapes of the vendor's raw objects, and their parsing.
//!
//! A raw object that does not fit its shape aborts the owning repository's
//! aggregation with a [`ParseError`]; there is no partial-item recovery.
use vstd::prelude::*;

use crate::json::{lemma_jview_shape, obj_get, Json, JsonView};
use crate::utils::ts_of;

verus! {

/// A field one of the normalized shapes reads.
#[derive(Clone, Copy, PartialEq, Eq, Structural, Debug)]
pub enum FieldName {
    Number,
    HtmlUrl,
    Title,
    Body,
    User,
    Login,
    UpdatedAt,
    Id,
    Event,
    CreatedAt,
}

/// Why a raw object does not fit its normalized shape: a required field is
/// missing, or a field holds the wrong kind of value (for a timestamp field,
/// also a string that does not parse).
#[derive(Clone, Copy, PartialEq, Eq, Structural, Debug)]
pub enum ParseError {
    Missing(FieldName),
    Wrong(FieldName),
}

/// A required string field.
pub open spec fn get_str(j: JsonView, key: Seq<char>, fld: FieldName) -> Result<
    Seq<char>,
    ParseError,
> {
    match obj_get(j, key) {
        None => Err(ParseError::Missing(fld)),
        Some(v) => match v {
            JsonView::Text(s) => Ok(s),
            _ => Err(ParseError::Wrong(fld)),
        },
    }
}

/// A required integer field.
pub open spec fn get_i64(j: JsonView, key: Seq<char>, fld: FieldName) -> Result<i64, ParseError> {
    match obj_get(j, key) {
        None => Err(ParseError::Missing(fld)),
        Some(v) => match v {
            JsonView::Num(n) => Ok(n),
            _ => Err(ParseError::Wrong(fld)),
        },
    }
}

/// An optional timestamp field: a missing field or a null is `None`; a string
/// must parse; anything else is the wrong kind of value.
pub open spec fn get_opt_ts(j: JsonView, key: Seq<char>, fld: FieldName) -> Result<
    Option<i64>,
    ParseError,
> {
    match obj_get(j, key) {
        None => Ok(None),
        Some(v) => match v {
            JsonView::Null => Ok(None),
            JsonView::Text(s) => match ts_of(s) {
                Some(t) => Ok(Some(t)),
                None => Err(ParseError::Wrong(fld)),
            },
            _ => Err(ParseError::Wrong(fld)),
        },
    }
}

/// The user block of a primary item.
pub struct UserResponse {
    pub login: String,
}

/// A primary item, normalized.
pub struct PullRequestResponse {
    pub number: i64,
    pub html_url: String,
    pub title: String,
    pub body: String,
    pub user: UserResponse,
    pub updated_at: Option<i64>,
}

/// The mathematical shape of a [`PullRequestResponse`].
pub ghost struct PullRequestResponseView {
    pub number: i64,
    pub html_url: Seq<char>,
    pub title: Seq<char>,
    pub body: Seq<char>,
    pub login: Seq<char>,
    pub updated_at: Option<i64>,
}

impl View for PullRequestResponse {
    type V = PullRequestResponseView;

    open spec fn view(&self) -> PullRequestResponseView {
        PullRequestResponseView {
            number: self.number,
            html_url: self.html_url@,
            title: self.title@,
            body: self.body@,
            login: self.user.login@,
            updated_at: self.updated_at,
        }
    }
}

/// A comment on a primary item, normalized.
pub struct IssueCommentResponse {
    pub id: i64,
    pub html_url: String,
    pub body: String,
    pub updated_at: Option<i64>,
}

/// The mathematical shape of an [`IssueCommentResponse`].
pub ghost struct IssueCommentResponseView {
    pub id: i64,
    pub html_url: Seq<char>,
    pub body: Seq<char>,
    pub updated_at: Option<i64>,
}

impl View for IssueCommentResponse {
    type V = IssueCommentResponseView;

    open spec fn view(&self) -> IssueCommentResponseView {
        IssueCommentResponseView {
            id: self.id,
            html_url: self.html_url@,
            body: self.body@,
            updated_at: self.updated_at,
        }
    }
}

/// A status event on a primary item, normalized.
pub struct IssueEventResponse {
    pub id: i64,
    pub event: String,
    pub created_at: Option<i64>,
}

/// The mathematical shape of an [`IssueEventResponse`].
pub ghost struct IssueEventResponseView {
    pub id: i64,
    pub event: Seq<char>,
    pub created_at: Option<i64>,
}

impl View for IssueEventResponse {
    type V = IssueEventResponseView;

    open spec fn view(&self) -> IssueEventResponseView {
        IssueEventResponseView { id: self.id, event: self.event@, created_at: self.created_at }
    }
}

/// What a raw primary item normalizes to, field checks in declaration order.
pub open spec fn spec_parse_pr(j: JsonView) -> Result<PullRequestResponseView, ParseError> {
    match get_i64(j, "number"@, FieldName::Number) {
        Err(e) => Err(e),
        Ok(number) => match get_str(j, "html_url"@, FieldName::HtmlUrl) {
            Err(e) => Err(e),
            Ok(html_url) => match get_str(j, "title"@, FieldName::Title) {
                Err(e) => Err(e),
                Ok(title) => match get_str(j, "body"@, FieldName::Body) {
                    Err(e) => Err(e),
                    Ok(body) => match obj_get(j, "user"@) {
                        None => Err(ParseError::Missing(FieldName::User)),
                        Some(u) => if !(u is Obj) {
                            Err(ParseError::Wrong(FieldName::User))
                        } else {
                            match get_str(u, "login"@, FieldName::Login) {
                                Err(e) => Err(e),
                                Ok(login) => match get_opt_ts(
                                    j,
                                    "updated_at"@,
                                    FieldName::UpdatedAt,
                                ) {
                                    Err(e) => Err(e),
                                    Ok(updated_at) => Ok(
                                        PullRequestResponseView {
                                            number,
                                            html_url,
                                            title,
                                            body,
                                            login,
                                            updated_at,
                                        },
                                    ),
                                },
                            }
                        },
                    },
                },
            },
        },
    }
}

/// What a raw comment normalizes to.
pub open spec fn spec_parse_comment(j: JsonView) -> Result<IssueCommentResponseView, ParseError> {
    match get_i64(j, "id"@, FieldName::Id) {
        Err(e) => Err(e),
        Ok(id) => match get_str(j, "html_url"@, FieldName::HtmlUrl) {
            Err(e) => Err(e),
            Ok(html_url) => match get_str(j, "body"@, FieldName::Body) {
                Err(e) => Err(e),
                Ok(body) => match get_opt_ts(j, "updated_at"@, FieldName::UpdatedAt) {
                    Err(e) => Err(e),
                    Ok(updated_at) => Ok(
                        IssueCommentResponseView { id, html_url, body, updated_at },
                    ),
                },
            },
        },
    }
}

/// What a raw status event normalizes to.
pub open spec fn spec_parse_issue_event(j: JsonView) -> Result<IssueEventResponseView, ParseError> {
    match get_i64(j, "id"@, FieldName::Id) {
        Err(e) => Err(e),
        Ok(id) => match get_str(j, "event"@, FieldName::Event) {
            Err(e) => Err(e),
            Ok(event) => match get_opt_ts(j, "created_at"@, FieldName::CreatedAt) {
                Err(e) => Err(e),
                Ok(created_at) => Ok(IssueEventResponseView { id, event, created_at }),
            },
        },
    }
}

/// Reads a required string field.
fn get_str_field(j: &Json, key: &str, fld: FieldName) -> (r: Result<String, ParseError>)
    ensures
        match r {
            Ok(s) => get_str(j@, key@, fld) == Ok::<Seq<char>, ParseError>(s@),
            Err(e) => get_str(j@, key@, fld) == Err::<Seq<char>, ParseError>(e),
        },
{
    match crate::json::json_get(j, key) {
        None => Err(ParseError::Missing(fld)),
        Some(v) => {
            proof {
                lemma_jview_shape(*v);
            }
            match v {
                Json::Text(s) => Ok(s.clone()),
                _ => Err(ParseError::Wrong(fld)),
            }
        },
    }
}

/// Reads a required integer field.
fn get_i64_field(j: &Json, key: &str, fld: FieldName) -> (r: Result<i64, ParseError>)
    ensures
        r == get_i64(j@, key@, fld),
{
    match crate::json::json_get(j, key) {
        None => Err(ParseError::Missing(fld)),
        Some(v) => {
            proof {
                lemma_jview_shape(*v);
            }
            match v {
                Json::Num(n) => Ok(*n),
                _ => Err(ParseError::Wrong(fld)),
            }
        },
    }
}

/// Reads an optional timestamp field.
fn get_opt_ts_field(j: &Json, key: &str, fld: FieldName) -> (r: Result<Option<i64>, ParseError>)
    ensures
        r == get_opt_ts(j@, key@, fld),
{
    match crate::json::json_get(j, key) {
        None => Ok(None),
        Some(v) => {
            proof {
                lemma_jview_shape(*v);
            }
            match v {
                Json::Null => Ok(None),
                Json::Text(s) => match crate::utils::parse_to_date_time(s.as_str()) {
                    Some(t) => Ok(Some(t)),
                    None => Err(ParseError::Wrong(fld)),
                },
                _ => Err(ParseError::Wrong(fld)),
            }
        },
    }
}

/// The mathematical shape of a primary-item parse result.
pub open spec fn pr_result_view(r: Result<PullRequestResponse, ParseError>) -> Result<
    PullRequestResponseView,
    ParseError,
> {
    match r {
        Ok(p) => Ok(p@),
        Err(e) => Err(e),
    }
}

/// Normalizes a raw primary item, per [`spec_parse_pr`].
pub fn parse_pull_request(j: &Json) -> (r: Result<PullRequestResponse, ParseError>)
    ensures
        pr_result_view(r) == spec_parse_pr(j@),
{
    let number = match get_i64_field(j, "number", FieldName::Number) {
        Ok(n) => n,
        Err(e) => {
            return Err(e);
        },
    };
    let html_url = match get_str_field(j, "html_url", FieldName::HtmlUrl) {
        Ok(s) => s,
        Err(e) => {
            return Err(e);
        },
    };
    let title = match get_str_field(j, "title", FieldName::Title) {
        Ok(s) => s,
        Err(e) => {
            return Err(e);
        },
    };
    let body = match get_str_field(j, "body", FieldName::Body) {
        Ok(s) => s,
        Err(e) => {
            return Err(e);
        },
    };
    let login = match crate::json::json_get(j, "user") {
        None => {
            return Err(ParseError::Missing(FieldName::User));
        },
        Some(u) => {
            proof {
                lemma_jview_shape(*u);
            }
            match u {
                Json::Obj(_) => match get_str_field(u, "login", FieldName::Login) {
                    Ok(s) => s,
                    Err(e) => {
                        return Err(e);
                    },
                },
                _ => {
                    return Err(ParseError::Wrong(FieldName::User));
                },
            }
        },
    };
    let updated_at = match get_opt_ts_field(j, "updated_at", FieldName::UpdatedAt) {
        Ok(t) => t,
        Err(e) => {
            return Err(e);
        },
    };
    Ok(
        PullRequestResponse {
            number,
            html_url,
            title,
            body,
            user: UserResponse { login },
            updated_at,
        },
    )
}

/// The mathematical shape of a comment parse result.
pub open spec fn comment_result_view(r: Result<IssueCommentResponse, ParseError>) -> Result<
    IssueCommentResponseView,
    ParseError,
> {
    match r {
        Ok(c) => Ok(c@),
        Err(e) => Err(e),
    }
}

/// Normalizes a raw comment, per [`spec_parse_comment`].
pub fn parse_issue_comment(j: &Json) -> (r: Result<IssueCommentResponse, ParseError>)
    ensures
        comment_result_view(r) == spec_parse_comment(j@),
{
    let id = match get_i64_field(j, "id", FieldName::Id) {
        Ok(n) => n,
        Err(e) => {
            return Err(e);
        },
    };
    let html_url = match get_str_field(j, "html_url", FieldName::HtmlUrl) {
        Ok(s) => s,
        Err(e) => {
            return Err(e);
        },
    };
    let body = match get_str_field(j, "body", FieldName::Body) {
        Ok(s) => s,
        Err(e) => {
            return Err(e);
        },
    };
    let updated_at = match get_opt_ts_field(j, "updated_at", FieldName::UpdatedAt) {
        Ok(t) => t,
        Err(e) => {
            return Err(e);
        },
    };
    Ok(IssueCommentResponse { id, html_url, body, updated_at })
}

/// The mathematical shape of a status-event parse result.
pub open spec fn issue_event_result_view(r: Result<IssueEventResponse, ParseError>) -> Result<
    IssueEventResponseView,
    ParseError,
> {
    match r {
        Ok(ev) => Ok(ev@),
        Err(e) => Err(e),
    }
}

/// Normalizes a raw status event, per [`spec_parse_issue_event`].
pub fn parse_issue_event(j: &Json) -> (r: Result<IssueEventResponse, ParseError>)
    ensures
        issue_event_result_view(r) == spec_parse_issue_event(j@),
{
    let id = match get_i64_field(j, "id", FieldName::Id) {
        Ok(n) => n,
        Err(e) => {
            return Err(e);
        },
    };
    let event = match get_str_field(j, "event", FieldName::Event) {
        Ok(s) => s,
        Err(e) => {
            return Err(e);
        },
    };
    let created_at = match get_opt_ts_field(j, "created_at", FieldName::CreatedAt) {
        Ok(t) => t,
        Err(e) => {
            return Err(e);
        },
    };
    Ok(IssueEventResponse { id, event, created_at })
}

} // verus!
