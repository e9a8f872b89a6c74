use webql::data::{Filter, Operation};
use webql::jfilter::{is_match_array, is_match_filters, is_match_string, FilterError};
use webql::json::Json;

fn ftext(s: &str) -> Json {
    Json::Text(s.to_string())
}

fn fobj(pairs: Vec<(&str, Json)>) -> Json {
    Json::Obj(pairs.into_iter().map(|(k, v)| (k.to_string(), v)).collect())
}

fn fvals(vs: &[&str]) -> Vec<String> {
    vs.iter().map(|s| s.to_string()).collect()
}

#[test]
fn is_equal_match_string() {
    let filter = Filter {
        query: "".to_string(),
        values: fvals(&["foo", "exists-value"]),
        operation: Operation::Equal,
    };
    assert!(is_match_string("exists-value", &filter));
    assert!(!is_match_string("equal-value", &filter));
}

#[test]
fn is_contains_match_string() {
    let filter = Filter {
        query: "".to_string(),
        values: fvals(&["foo", "exists-value"]),
        operation: Operation::Contains,
    };
    assert!(is_match_string("exists-value", &filter));
    assert!(!is_match_string("contains-value", &filter));
}

#[test]
fn is_contains_match_array() {
    let filter = Filter {
        query: "".to_string(),
        values: fvals(&["foo", "contains"]),
        operation: Operation::Contains,
    };
    assert!(is_match_array(
        &vec![ftext("val"), ftext("value-contains")],
        &filter
    ));
    assert!(!is_match_array(&vec![ftext("val"), ftext("val-2")], &filter));
}

#[test]
fn can_match_filters() {
    let json = fobj(vec![
        ("body", ftext("some example")),
        (
            "labels",
            Json::Arr(vec![
                fobj(vec![("name", ftext("label-1"))]),
                fobj(vec![("name", ftext("label-2"))]),
            ]),
        ),
        ("user", fobj(vec![("login", ftext("kaplanelad"))])),
    ]);
    let filter = vec![
        Filter {
            query: r#""body""#.to_string(),
            values: fvals(&["foo", "example"]),
            operation: Operation::Contains,
        },
        Filter {
            query: r#""user"."login""#.to_string(),
            values: fvals(&["foo", "kaplanelad"]),
            operation: Operation::Equal,
        },
        Filter {
            query: r#""labels"|={"name"}."name""#.to_string(),
            values: fvals(&["foo", "label-1"]),
            operation: Operation::Equal,
        },
        Filter {
            query: r#""labels"|={"name"}."name""#.to_string(),
            values: fvals(&["foo", "label"]),
            operation: Operation::Contains,
        },
    ];
    assert_eq!(is_match_filters(&json, &filter), Ok(true));
}

#[test]
fn equal_is_exact() {
    let filter = Filter {
        query: "".to_string(),
        values: fvals(&["label"]),
        operation: Operation::Equal,
    };
    assert!(!is_match_string("label-1", &filter));
    assert!(is_match_string("label", &filter));
}

#[test]
fn contains_is_substring() {
    let filter = Filter {
        query: "".to_string(),
        values: fvals(&["label-1"]),
        operation: Operation::Contains,
    };
    assert!(is_match_string("label-10", &filter));
    assert!(!is_match_string("label-0", &filter));
}

#[test]
fn short_circuit_skips_later_conditions() {
    // The second condition's path is invalid; evaluation must stop at the
    // first non-matching condition and report a plain non-match, not an error.
    let json = fobj(vec![("body", ftext("some example"))]);
    let filter = vec![
        Filter {
            query: r#""body""#.to_string(),
            values: fvals(&["nope"]),
            operation: Operation::Equal,
        },
        Filter {
            query: "!!!".to_string(),
            values: fvals(&["anything"]),
            operation: Operation::Equal,
        },
    ];
    assert_eq!(is_match_filters(&json, &filter), Ok(false));
}

#[test]
fn invalid_path_is_an_error() {
    let json = fobj(vec![("body", ftext("x"))]);
    let filter = vec![Filter {
        query: "!!!".to_string(),
        values: fvals(&["x"]),
        operation: Operation::Equal,
    }];
    assert_eq!(
        is_match_filters(&json, &filter),
        Err(FilterError::InvalidPath("!!!".to_string()))
    );
}

#[test]
fn oversized_numeric_index_is_invalid_path() {
    let json = fobj(vec![("a", Json::Arr(vec![ftext("x")]))]);
    let query = r#""a"[99999999999999999999999999]"#;
    let filter = vec![Filter {
        query: query.to_string(),
        values: fvals(&["x"]),
        operation: Operation::Equal,
    }];
    assert_eq!(
        is_match_filters(&json, &filter),
        Err(FilterError::InvalidPath(query.to_string()))
    );
}

#[test]
fn object_index_selector_is_invalid_path() {
    let json = fobj(vec![("a", ftext("x"))]);
    let filter = vec![Filter {
        query: "{[0]}".to_string(),
        values: fvals(&["x"]),
        operation: Operation::Equal,
    }];
    assert_eq!(
        is_match_filters(&json, &filter),
        Err(FilterError::InvalidPath("{[0]}".to_string()))
    );
}

#[test]
fn range_selector_is_invalid_path() {
    let json = fobj(vec![("a", Json::Arr(vec![ftext("x")]))]);
    let filter = vec![Filter {
        query: r#""a"[0:1]"#.to_string(),
        values: fvals(&["x"]),
        operation: Operation::Equal,
    }];
    assert_eq!(
        is_match_filters(&json, &filter),
        Err(FilterError::InvalidPath(r#""a"[0:1]"#.to_string()))
    );
}

#[test]
fn empty_index_segment_is_invalid_path() {
    let json = fobj(vec![("a", Json::Arr(vec![ftext("x")]))]);
    let filter = vec![Filter {
        query: "[,5]".to_string(),
        values: fvals(&["x"]),
        operation: Operation::Equal,
    }];
    assert_eq!(
        is_match_filters(&json, &filter),
        Err(FilterError::InvalidPath("[,5]".to_string()))
    );
}

#[test]
fn spaced_index_segment_is_invalid_path() {
    let json = fobj(vec![("a", Json::Arr(vec![ftext("x")]))]);
    let filter = vec![Filter {
        query: r#""a"[1, 2]"#.to_string(),
        values: fvals(&["x"]),
        operation: Operation::Equal,
    }];
    assert_eq!(
        is_match_filters(&json, &filter),
        Err(FilterError::InvalidPath(r#""a"[1, 2]"#.to_string()))
    );
}

#[test]
fn plain_index_selector_works() {
    let json = fobj(vec![("a", Json::Arr(vec![ftext("x"), ftext("y")]))]);
    let filter = vec![Filter {
        query: r#""a"[1]"#.to_string(),
        values: fvals(&["y"]),
        operation: Operation::Equal,
    }];
    assert_eq!(is_match_filters(&json, &filter), Ok(true));
}

#[test]
fn digits_inside_quoted_keys_are_allowed() {
    let json = fobj(vec![("12345678901234567890123", ftext("x"))]);
    let filter = vec![Filter {
        query: r#""12345678901234567890123""#.to_string(),
        values: fvals(&["x"]),
        operation: Operation::Equal,
    }];
    assert_eq!(is_match_filters(&json, &filter), Ok(true));
}

#[test]
fn non_string_scalar_is_empty_value_error() {
    let json = fobj(vec![("num", Json::Num(7))]);
    let filter = vec![Filter {
        query: r#""num""#.to_string(),
        values: fvals(&["7"]),
        operation: Operation::Equal,
    }];
    assert_eq!(
        is_match_filters(&json, &filter),
        Err(FilterError::EmptyValue(r#""num""#.to_string()))
    );
}

#[test]
fn empty_string_scalar_is_empty_value_error() {
    let json = fobj(vec![("body", ftext(""))]);
    let filter = vec![Filter {
        query: r#""body""#.to_string(),
        values: fvals(&[""]),
        operation: Operation::Contains,
    }];
    assert_eq!(
        is_match_filters(&json, &filter),
        Err(FilterError::EmptyValue(r#""body""#.to_string()))
    );
}

#[test]
fn empty_extracted_array_never_matches() {
    // Contains with an empty candidate matches any string, yet an empty
    // extracted array still matches nothing.
    let json = fobj(vec![("labels", Json::Arr(vec![]))]);
    let filter = vec![Filter {
        query: r#""labels""#.to_string(),
        values: fvals(&[""]),
        operation: Operation::Contains,
    }];
    assert_eq!(is_match_filters(&json, &filter), Ok(false));
}

#[test]
fn equal_matches_single_array_element() {
    let json = fobj(vec![("labels", Json::Arr(vec![ftext("x")]))]);
    let filter = vec![Filter {
        query: r#""labels""#.to_string(),
        values: fvals(&["x"]),
        operation: Operation::Equal,
    }];
    assert_eq!(is_match_filters(&json, &filter), Ok(true));
}

#[test]
fn no_conditions_match_everything() {
    let json = fobj(vec![("body", ftext("x"))]);
    assert_eq!(is_match_filters(&json, &vec![]), Ok(true));
}
