//! Filter a JSON document with a set of path-based conditions.
//!
//! A condition set is evaluated in order, AND across conditions and OR across
//! each condition's values; evaluation stops at the first condition that errs
//! or does not match.
use vstd::prelude::*;

use crate::data::{Filter, FilterView, Operation};
use crate::json::{jviews, lemma_jview_shape, lemma_jviews_index, string_form, Json, JsonView};

verus! {

/// Why a filter-engine call failed.
#[derive(Clone, Debug, PartialEq, Eq)]
pub enum FilterError {
    /// A condition's query is one the path extractor cannot process, or does
    /// not resolve against the document; carries the offending query. (The
    /// extractor's own message is not kept: it is not a function of the
    /// document and the query.)
    InvalidPath(String),
    /// A condition's query selected a scalar whose string form is empty — the
    /// missing-field signal, not a non-match; carries the offending query.
    EmptyValue(String),
}

/// The mathematical shape of a [`FilterError`].
pub ghost enum FilterErrorView {
    InvalidPath(Seq<char>),
    EmptyValue(Seq<char>),
}

impl View for FilterError {
    type V = FilterErrorView;

    open spec fn view(&self) -> FilterErrorView {
        match self {
            FilterError::InvalidPath(m) => FilterErrorView::InvalidPath(m@),
            FilterError::EmptyValue(q) => FilterErrorView::EmptyValue(q@),
        }
    }
}

/// What the path extractor selects from a document for a path expression —
/// `None` when the path does not resolve: a function of the document and the
/// path alone. (The extractor's failure message is not: it may differ between
/// two calls, so the library never holds it.)
pub uninterp spec fn extract_of(doc: JsonView, path: Seq<char>) -> Option<JsonView>;

/// The mathematical shape of an extraction result.
pub open spec fn extraction_view(r: Option<Json>) -> Option<JsonView> {
    match r {
        Some(j) => Some(j@),
        None => None,
    }
}

/// A decimal digit.
pub open spec fn is_ascii_digit(c: char) -> bool {
    '0' <= c && c <= '9'
}

/// The state of the query scan: whether the cursor stands inside a quoted
/// key (after a backslash escape), the depth of braces and brackets outside
/// quotes, the length of the current digit run, and whether an unsupported
/// construct was seen.
pub ghost struct ScanState {
    pub in_quote: bool,
    pub escaped: bool,
    pub braces: nat,
    pub brackets: nat,
    pub digits: nat,
    pub unsupported: bool,
}

pub open spec fn scan_start() -> ScanState {
    ScanState {
        in_quote: false,
        escaped: false,
        braces: 0,
        brackets: 0,
        digits: 0,
        unsupported: false,
    }
}

/// One character of the query scan. Inside a quoted key, a backslash escapes
/// the next character and an unescaped quote closes the key; outside, braces
/// and brackets are counted, and five constructs mark the query unsupported:
/// a run of ten or more digits (the extractor parses an index as a machine
/// integer, and at most nine digits stay within `usize` on 32-bit targets
/// too), a bracket inside braces (an object index selector), a colon inside
/// brackets (a range selector), and — inside brackets — a space, or a comma
/// not directly preceded by a digit (either would leave an index segment the
/// extractor cannot parse).
pub open spec fn scan_step(st: ScanState, c: char) -> ScanState {
    if st.in_quote {
        ScanState {
            escaped: !st.escaped && c == '\\',
            in_quote: !(!st.escaped && c == '"'),
            digits: 0,
            ..st
        }
    } else {
        ScanState {
            in_quote: c == '"',
            escaped: false,
            braces: if c == '{' {
                st.braces + 1
            } else if c == '}' && st.braces > 0 {
                (st.braces - 1) as nat
            } else {
                st.braces
            },
            brackets: if c == '[' {
                st.brackets + 1
            } else if c == ']' && st.brackets > 0 {
                (st.brackets - 1) as nat
            } else {
                st.brackets
            },
            digits: if is_ascii_digit(c) {
                st.digits + 1
            } else {
                0
            },
            unsupported: st.unsupported || (is_ascii_digit(c) && st.digits + 1 >= 10) || (c == '['
                && st.braces > 0) || (c == ':' && st.brackets > 0 && st.braces == 0) || (c == ' '
                && st.brackets > 0) || (c == ',' && st.brackets > 0 && st.digits == 0),
        }
    }
}

/// The scan state after the whole query.
pub open spec fn scan_query(q: Seq<char>) -> ScanState
    decreases q.len(),
{
    if q.len() == 0 {
        scan_start()
    } else {
        scan_step(scan_query(q.drop_last()), q.last())
    }
}

/// A path expression the extractor is known to process without panicking:
/// the scan saw no oversized numeric index, no bracketed selector inside
/// property braces, no range selector, and no index segment that is empty or
/// broken by a space. Anything else is a bad path and answered as
/// `InvalidPath` without consulting the extractor.
pub open spec fn query_safe(q: Seq<char>) -> bool {
    !scan_query(q).unsupported
}

/// Scans the query for the constructs the extractor cannot process.
fn query_supported(q: &str) -> (r: bool)
    ensures
        r == query_safe(q@),
{
    let n = q.unicode_len();
    let mut in_quote = false;
    let mut escaped = false;
    let mut braces: usize = 0;
    let mut brackets: usize = 0;
    let mut digits: usize = 0;
    let mut unsupported = false;
    let mut i: usize = 0;
    proof {
        assert(q@.take(0) =~= Seq::empty());
    }
    while i < n
        invariant
            i <= n,
            n == q@.len(),
            braces <= i,
            brackets <= i,
            digits <= i,
            scan_query(q@.take(i as int)) == (ScanState {
                in_quote,
                escaped,
                braces: braces as nat,
                brackets: brackets as nat,
                digits: digits as nat,
                unsupported,
            }),
        decreases n - i,
    {
        let c = q.get_char(i);
        let ghost pre = ScanState {
            in_quote,
            escaped,
            braces: braces as nat,
            brackets: brackets as nat,
            digits: digits as nat,
            unsupported,
        };
        if in_quote {
            let was_escaped = escaped;
            escaped = !was_escaped && c == '\\';
            in_quote = !(!was_escaped && c == '"');
            digits = 0;
        } else {
            in_quote = c == '"';
            escaped = false;
            let is_digit = '0' <= c && c <= '9';
            if is_digit && digits + 1 >= 10 {
                unsupported = true;
            }
            if c == '[' && braces > 0 {
                unsupported = true;
            }
            if c == ':' && brackets > 0 && braces == 0 {
                unsupported = true;
            }
            if c == ' ' && brackets > 0 {
                unsupported = true;
            }
            if c == ',' && brackets > 0 && digits == 0 {
                unsupported = true;
            }
            if c == '{' {
                braces = braces + 1;
            } else if c == '}' && braces > 0 {
                braces = braces - 1;
            }
            if c == '[' {
                brackets = brackets + 1;
            } else if c == ']' && brackets > 0 {
                brackets = brackets - 1;
            }
            if is_digit {
                digits = digits + 1;
            } else {
                digits = 0;
            }
        }
        proof {
            assert(q@.take(i as int + 1).drop_last() =~= q@.take(i as int));
            assert(q@.take(i as int + 1).last() == q@[i as int]);
            assert(scan_query(q@.take(i as int + 1)) == scan_step(pre, q@[i as int]));
        }
        i = i + 1;
    }
    proof {
        assert(q@.take(n as int) =~= q@);
    }
    !unsupported
}

#[verifier::external_type_specification]
#[verifier::external_body]
pub struct ExValue(serde_json::Value);

/// Builds the `serde_json` document that mirrors a [`Json`] document, for the
/// path extractor to walk.
#[verifier::external_body]
fn to_value(j: &Json) -> serde_json::Value {
    match j {
        Json::Null => serde_json::Value::Null,
        Json::Bool(b) => serde_json::Value::Bool(*b),
        Json::Num(n) => serde_json::Value::Number(serde_json::Number::from(*n)),
        Json::Text(s) => serde_json::Value::String(s.clone()),
        Json::Arr(items) => serde_json::Value::Array(items.iter().map(to_value).collect()),
        Json::Obj(pairs) => serde_json::Value::Object(
            pairs.iter().map(|p| (p.0.clone(), to_value(&p.1))).collect(),
        ),
    }
}

/// Reads a `serde_json` value back into the library's [`Json`] shape. The
/// pipeline never reads a fractional number, so one is held as `Null`.
#[verifier::external_body]
fn from_value(v: &serde_json::Value) -> Json {
    match v {
        serde_json::Value::Null => Json::Null,
        serde_json::Value::Bool(b) => Json::Bool(*b),
        serde_json::Value::Number(n) => n.as_i64().map_or(Json::Null, Json::Num),
        serde_json::Value::String(s) => Json::Text(s.clone()),
        serde_json::Value::Array(items) => Json::Arr(items.iter().map(from_value).collect()),
        serde_json::Value::Object(m) => Json::Obj(
            m.iter().map(|(k, x)| (k.clone(), from_value(x))).collect(),
        ),
    }
}

/// Relies on `jql::walker`: which selection a path yields on a document —
/// and whether it yields one — depends on the two alone. Its failure message
/// does not (when several selector groups fail, which message comes back
/// depends on scheduling), so the message is dropped here. On the queries the
/// scan admits the call returns without panicking: the scan keeps out the
/// constructs whose parsing or walking can panic — oversized numeric indexes,
/// index segments that are empty or broken by a space, bracketed selectors
/// inside property braces, and range selectors.
#[verifier::external_body]
fn extract(doc: &Json, path: &str) -> (r: Option<Json>)
    requires
        query_safe(path@),
    ensures
        extraction_view(r) == extract_of(doc@, path@),
{
    match jql::walker(&to_value(doc), path) {
        Ok(v) => Some(from_value(&v)),
        Err(_) => None,
    }
}

/// `needle` occurs as a contiguous run of characters inside `hay`.
pub open spec fn is_substring_of(needle: Seq<char>, hay: Seq<char>) -> bool {
    exists|i: int|
        0 <= i && i + needle.len() <= hay.len() && #[trigger] hay.subrange(i, i + needle.len())
            == needle
}

/// Relies on `str::contains` with a `&str` pattern: true exactly when the
/// needle's characters occur contiguously inside the haystack's.
#[verifier::external_body]
fn str_contains(hay: &str, needle: &str) -> (r: bool)
    ensures
        r == is_substring_of(needle@, hay@),
{
    hay.contains(needle)
}

/// Whether one extracted string satisfies one candidate value: Equal is exact
/// equality, Contains is a substring test.
pub open spec fn value_matches(val: Seq<char>, op: Operation, candidate: Seq<char>) -> bool {
    match op {
        Operation::Equal => candidate == val,
        Operation::Contains => is_substring_of(candidate, val),
    }
}

/// Whether an extracted string satisfies the condition: at least one of the
/// condition's values matches it.
pub open spec fn spec_match_string(val: Seq<char>, f: FilterView) -> bool {
    exists|k: int| 0 <= k < f.values.len() && value_matches(val, f.operation, #[trigger] f.values[k])
}

/// Whether an extracted array satisfies the condition: at least one element's
/// string form matches; an empty array never matches.
pub open spec fn spec_match_array(items: Seq<JsonView>, f: FilterView) -> bool {
    exists|i: int| 0 <= i < items.len() && spec_match_string(string_form(#[trigger] items[i]), f)
}

/// One condition against one document: a query the extractor cannot process,
/// or one that does not resolve, is `InvalidPath`; an extracted array matches
/// if any element does; an extracted scalar with an empty string form is the
/// missing-field signal `EmptyValue`; any other scalar matches by its string
/// form.
pub open spec fn spec_check_filter(doc: JsonView, f: FilterView) -> Result<bool, FilterErrorView> {
    if !query_safe(f.query) {
        Err(FilterErrorView::InvalidPath(f.query))
    } else {
        match extract_of(doc, f.query) {
        None => Err(FilterErrorView::InvalidPath(f.query)),
        Some(v) => match v {
            JsonView::Arr(items) => Ok(spec_match_array(items, f)),
            _ => if string_form(v).len() == 0 {
                Err(FilterErrorView::EmptyValue(f.query))
            } else {
                Ok(spec_match_string(string_form(v), f))
            },
        },
        }
    }
}

/// A condition set against one document: conditions in order, AND across
/// them, stopping at the first condition that errs or does not match.
pub open spec fn spec_match_filters(doc: JsonView, fs: Seq<FilterView>) -> Result<
    bool,
    FilterErrorView,
>
    decreases fs.len(),
{
    if fs.len() == 0 {
        Ok(true)
    } else {
        match spec_check_filter(doc, fs[0]) {
            Err(e) => Err(e),
            Ok(b) => if !b {
                Ok(false)
            } else {
                spec_match_filters(doc, fs.drop_first())
            },
        }
    }
}

/// The mathematical shape of a filter-engine result.
pub open spec fn filter_result_view(r: Result<bool, FilterError>) -> Result<
    bool,
    FilterErrorView,
> {
    match r {
        Ok(b) => Ok(b),
        Err(e) => Err(e@),
    }
}

/// Whether the given string satisfies the condition: under Equal, it equals
/// one of the condition's values; under Contains, it has one as a substring.
pub fn is_match_string(val_str: &str, filter: &Filter) -> (r: bool)
    ensures
        r == spec_match_string(val_str@, filter@),
{
    match filter.operation {
        Operation::Equal => {
            let owned = val_str.to_owned();
            let mut k: usize = 0;
            while k < filter.values.len()
                invariant
                    k <= filter.values@.len(),
                    owned@ == val_str@,
                    filter@.operation == Operation::Equal,
                    filter@.values.len() == filter.values@.len(),
                    forall|m: int|
                        0 <= m < k ==> !value_matches(
                            val_str@,
                            filter@.operation,
                            #[trigger] filter@.values[m],
                        ),
                decreases filter.values@.len() - k,
            {
                if filter.values[k] == owned {
                    assert(value_matches(val_str@, filter@.operation, filter@.values[k as int]));
                    return true;
                }
                k = k + 1;
            }
            false
        },
        Operation::Contains => {
            let mut k: usize = 0;
            while k < filter.values.len()
                invariant
                    k <= filter.values@.len(),
                    filter@.operation == Operation::Contains,
                    filter@.values.len() == filter.values@.len(),
                    forall|m: int|
                        0 <= m < k ==> !value_matches(
                            val_str@,
                            filter@.operation,
                            #[trigger] filter@.values[m],
                        ),
                decreases filter.values@.len() - k,
            {
                if str_contains(val_str, filter.values[k].as_str()) {
                    assert(value_matches(val_str@, filter@.operation, filter@.values[k as int]));
                    return true;
                }
                k = k + 1;
            }
            false
        },
    }
}

/// Whether any element of the extracted array satisfies the condition, by
/// its string form.
pub fn is_match_array(values: &Vec<Json>, filter: &Filter) -> (r: bool)
    ensures
        r == spec_match_array(values.deep_view(), filter@),
{
    let mut i: usize = 0;
    while i < values.len()
        invariant
            i <= values@.len(),
            values.deep_view().len() == values@.len(),
            forall|m: int|
                0 <= m < i ==> !spec_match_string(
                    string_form(#[trigger] values.deep_view()[m]),
                    filter@,
                ),
        decreases values@.len() - i,
    {
        let s = crate::json::prim_str(&values[i]);
        if is_match_string(s, filter) {
            assert(values.deep_view()[i as int] == values@[i as int]@);
            return true;
        }
        i = i + 1;
    }
    false
}

/// One condition against the document: extracts by the condition's query and
/// matches per [`spec_check_filter`].
fn check_filter(data: &Json, filter: &Filter) -> (r: Result<bool, FilterError>)
    ensures
        filter_result_view(r) == spec_check_filter(data@, filter@),
{
    if !query_supported(filter.query.as_str()) {
        return Err(FilterError::InvalidPath(filter.query.clone()));
    }
    match extract(data, filter.query.as_str()) {
        None => Err(FilterError::InvalidPath(filter.query.clone())),
        Some(v) => {
            proof {
                lemma_jview_shape(v);
            }
            match &v {
                Json::Arr(items) => {
                    proof {
                        lemma_jviews_index(items@);
                        assert(items.deep_view() =~= jviews(items@));
                    }
                    Ok(is_match_array(items, filter))
                },
                _ => {
                    let s = crate::json::prim_str(&v);
                    if s.is_empty() {
                        Err(FilterError::EmptyValue(filter.query.clone()))
                    } else {
                        Ok(is_match_string(s, filter))
                    }
                },
            }
        },
    }
}

/// Whether the document satisfies every condition of the filter set, in
/// order, stopping at the first non-match (`Ok(false)`, later conditions are
/// not evaluated and their paths never extracted) or error.
pub fn is_match_filters(data: &Json, filters: &Vec<Filter>) -> (r: Result<bool, FilterError>)
    ensures
        filter_result_view(r) == spec_match_filters(data@, filters.deep_view()),
{
    let ghost fsv = filters.deep_view();
    proof {
        assert(fsv.skip(0) =~= fsv);
    }
    let mut i: usize = 0;
    while i < filters.len()
        invariant
            i <= filters@.len(),
            fsv == filters.deep_view(),
            fsv.len() == filters@.len(),
            spec_match_filters(data@, fsv) == spec_match_filters(data@, fsv.skip(i as int)),
        decreases filters@.len() - i,
    {
        proof {
            assert(fsv.skip(i as int)[0] == fsv[i as int]);
        }
        match check_filter(data, &filters[i]) {
            Err(e) => {
                return Err(e);
            },
            Ok(b) => {
                if !b {
                    return Ok(false);
                }
            },
        }
        proof {
            assert(fsv.skip(i as int).drop_first() =~= fsv.skip(i as int + 1));
        }
        i = i + 1;
    }
    proof {
        assert(fsv.skip(i as int) =~= Seq::empty());
    }
    Ok(true)
}

/// The filter engine short-circuits: as soon as some prefix of the condition
/// set decides the outcome — a condition errs or does not match — the
/// conditions after that prefix have no effect on the result, so their paths
/// need never be extracted.
pub proof fn lemma_match_filters_short_circuit(doc: JsonView, fs: Seq<FilterView>, k: int)
    requires
        0 <= k < fs.len(),
        spec_match_filters(doc, fs.take(k + 1)) != Ok::<bool, FilterErrorView>(true),
    ensures
        spec_match_filters(doc, fs) == spec_match_filters(doc, fs.take(k + 1)),
    decreases k,
{
    let pre = fs.take(k + 1);
    assert(pre[0] == fs[0]);
    match spec_check_filter(doc, fs[0]) {
        Err(e) => {},
        Ok(b) => {
            if b {
                assert(pre.drop_first() =~= fs.drop_first().take(k));
                if k == 0 {
                    assert(spec_match_filters(doc, pre.drop_first()) == Ok::<
                        bool,
                        FilterErrorView,
                    >(true));
                    assert(false);
                } else {
                    lemma_match_filters_short_circuit(doc, fs.drop_first(), k - 1);
                }
            }
        },
    }
}

/// Equal is exact: an Equal condition is satisfied exactly when one of its
/// values equals the whole extracted string — never a proper substring.
pub proof fn lemma_equal_is_exact(val: Seq<char>, f: FilterView)
    requires
        f.operation is Equal,
    ensures
        spec_match_string(val, f) <==> exists|k: int|
            0 <= k < f.values.len() && #[trigger] f.values[k] == val,
{
}

/// Contains is substring: a Contains condition is satisfied exactly when one
/// of its values occurs contiguously inside the extracted string.
pub proof fn lemma_contains_is_substring(val: Seq<char>, f: FilterView)
    requires
        f.operation is Contains,
    ensures
        spec_match_string(val, f) <==> exists|k: int|
            0 <= k < f.values.len() && is_substring_of(#[trigger] f.values[k], val),
{
}

/// An empty extracted array never satisfies a condition, whatever the
/// condition's operation and values.
pub proof fn lemma_empty_array_never_matches(f: FilterView)
    ensures
        !spec_match_array(Seq::<JsonView>::empty(), f),
{
}

/// An extracted array satisfies an Equal condition as soon as exactly one of
/// its elements' string form equals one of the condition's values.
pub proof fn lemma_array_element_equal_matches(items: Seq<JsonView>, f: FilterView, i: int, k: int)
    requires
        f.operation is Equal,
        0 <= i < items.len(),
        0 <= k < f.values.len(),
        f.values[k] == string_form(items[i]),
    ensures
        spec_match_array(items, f),
{
    assert(value_matches(string_form(items[i]), f.operation, f.values[k]));
    assert(spec_match_string(string_form(items[i]), f));
}

} // verus!
