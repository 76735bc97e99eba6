use rocket_slogger::filter::{
    coverage, path_matches, AutoLog, Coverage, FilterPattern, ResolvedFilter, Segment,
};
use rocket_slogger::http::Method;

fn pat(path: &str) -> Vec<Segment> {
    Segment::parse_path(path)
}

fn fp(method: Method, path: &str) -> FilterPattern {
    FilterPattern {
        method,
        display: path.to_string(),
        segments: pat(path),
    }
}

#[test]
fn test_parse_path_classifies_segments() {
    assert_eq!(
        pat("/users/<id>/files/<rest..>"),
        vec![
            Segment::Static("users".into()),
            Segment::Dynamic,
            Segment::Static("files".into()),
            Segment::Trailing,
        ],
        "I expect static, dynamic, static, trailing segments"
    );
}

#[test]
fn test_static_path_exact_match() {
    assert!(
        path_matches(&pat("/health"), "/health"),
        "I expect /health to match itself"
    );
    assert!(
        !path_matches(&pat("/health"), "/healthz"),
        "I expect /healthz not to match /health"
    );
    assert!(
        !path_matches(&pat("/health"), "/health/x"),
        "I expect a longer path not to match"
    );
}

#[test]
fn test_dynamic_segment_matches_one() {
    assert!(
        path_matches(&pat("/users/<id>"), "/users/42"),
        "I expect a dynamic segment to match one value"
    );
    assert!(
        !path_matches(&pat("/users/<id>"), "/users"),
        "I expect a missing dynamic segment not to match"
    );
    assert!(
        !path_matches(&pat("/users/<id>"), "/users/42/extra"),
        "I expect an extra segment not to match"
    );
}

#[test]
fn test_trailing_matches_rest_including_none() {
    assert!(
        path_matches(&pat("/files/<rest..>"), "/files"),
        "I expect trailing to match zero segments"
    );
    assert!(
        path_matches(&pat("/files/<rest..>"), "/files/a"),
        "I expect trailing to match one segment"
    );
    assert!(
        path_matches(&pat("/files/<rest..>"), "/files/a/b/c"),
        "I expect trailing to match many segments"
    );
}

#[test]
fn test_root_path_matches() {
    assert!(path_matches(&pat("/"), "/"), "I expect root to match root");
    assert!(
        !path_matches(&pat("/"), "/x"),
        "I expect root not to match a child"
    );
}

#[test]
fn test_decision_truth_table() {
    let only_deny = ResolvedFilter {
        shown: vec![],
        skipped: vec![fp(Method::Get, "/health")],
    };
    assert!(
        only_deny.should_log(Method::Get, "/keep"),
        "I expect a non-denied route to log"
    );
    assert!(
        !only_deny.should_log(Method::Get, "/health"),
        "I expect a denied route not to log"
    );
    assert!(
        only_deny.should_log(Method::Post, "/health"),
        "I expect a different method to log"
    );

    let only_allow = ResolvedFilter {
        shown: vec![fp(Method::Get, "/api")],
        skipped: vec![],
    };
    assert!(
        only_allow.should_log(Method::Get, "/api"),
        "I expect an allowed route to log"
    );
    assert!(
        !only_allow.should_log(Method::Get, "/other"),
        "I expect a non-allowed route not to log"
    );

    let both = ResolvedFilter {
        shown: vec![fp(Method::Get, "/api"), fp(Method::Get, "/admin")],
        skipped: vec![fp(Method::Get, "/admin")],
    };
    assert!(
        both.should_log(Method::Get, "/api"),
        "I expect allowed-and-not-denied to log"
    );
    assert!(
        !both.should_log(Method::Get, "/admin"),
        "I expect deny to win over allow"
    );

    let neither = ResolvedFilter {
        shown: vec![],
        skipped: vec![],
    };
    assert!(
        neither.should_log(Method::Get, "/anything"),
        "I expect everything to log when no lists are set"
    );
}

#[test]
fn test_coverage_classifies_overlap() {
    // exact static match -> fully covered
    assert_eq!(coverage(&pat("/health"), &pat("/health")), Coverage::Full);
    // disjoint statics -> no overlap
    assert_eq!(coverage(&pat("/health"), &pat("/metrics")), Coverage::Disjoint);
    // filter dynamic matches a route static -> full
    assert_eq!(
        coverage(&pat("/users/<id>"), &pat("/users/<id>")),
        Coverage::Full
    );
    // route dynamic vs filter static -> only one value caught -> partial
    assert_eq!(
        coverage(&pat("/users/admin"), &pat("/users/<id>")),
        Coverage::Partial
    );
    // filter trailing covers the rest -> full
    assert_eq!(
        coverage(&pat("/files/<rest..>"), &pat("/files/a/b")),
        Coverage::Full
    );
    // route trailing vs shorter static filter -> request-dependent -> partial
    assert_eq!(
        coverage(&pat("/files"), &pat("/files/<rest..>")),
        Coverage::Partial
    );
    // route longer than a non-trailing filter -> no match
    assert_eq!(
        coverage(&pat("/files"), &pat("/files/logs")),
        Coverage::Disjoint
    );
}

#[test]
fn test_classify_auto_log_states() {
    // No filter at all -> always logged.
    let none = ResolvedFilter {
        shown: vec![],
        skipped: vec![],
    };
    assert_eq!(none.classify(Method::Get, &pat("/keep")), AutoLog::Always);

    // Fully skipped -> never.
    let skip = ResolvedFilter {
        shown: vec![],
        skipped: vec![fp(Method::Get, "/users/admin")],
    };
    assert_eq!(
        skip.classify(Method::Get, &pat("/users/admin")),
        AutoLog::Never
    );

    // Outside a non-empty show list -> never.
    let show = ResolvedFilter {
        shown: vec![fp(Method::Get, "/api")],
        skipped: vec![],
    };
    assert_eq!(show.classify(Method::Get, &pat("/other")), AutoLog::Never);

    // Dynamic route partially overlapping a skipped static -> conditional,
    // naming the pattern it may be interpreted as.
    let overlap = ResolvedFilter {
        shown: vec![],
        skipped: vec![fp(Method::Get, "/users/admin")],
    };
    assert_eq!(
        overlap.classify(Method::Get, &pat("/users/<id>")),
        AutoLog::Conditional {
            overlaps: vec!["GET /users/admin".to_string()]
        },
    );

    // Trailing route over a skipped sub-path -> conditional.
    let trailing = ResolvedFilter {
        shown: vec![],
        skipped: vec![fp(Method::Get, "/files/secret")],
    };
    assert_eq!(
        trailing.classify(Method::Get, &pat("/files/<rest..>")),
        AutoLog::Conditional {
            overlaps: vec!["GET /files/secret".to_string()]
        },
    );
}

#[test]
fn test_classify_show_skip_overlap_reports_conditional() {
    // Known, intentional imprecision (pinned): when a show pattern and a
    // skip pattern both partially overlap the same dynamic route, the route
    // is in truth never logged — the only eligible request (`/a`) is also
    // the one skipped — yet `classify` conservatively reports `Conditional`.
    // This is safe-directional (it never claims a skipped route logs) and is
    // documented on `classify`. Overlaps are deduplicated, so the shared
    // `GET /a` pattern appears once rather than twice.
    let overlap = ResolvedFilter {
        shown: vec![fp(Method::Get, "/a")],
        skipped: vec![fp(Method::Get, "/a")],
    };
    assert_eq!(
        overlap.classify(Method::Get, &pat("/<x>")),
        AutoLog::Conditional {
            overlaps: vec!["GET /a".to_string()]
        },
    );
}

#[test]
fn segments_are_told_apart_by_their_brackets() {
    assert_eq!(
        pat("//a//<>/<..>/<b/c>/<d.>/<e..>/"),
        vec![
            Segment::Static("a".to_string()),
            Segment::Dynamic,
            Segment::Trailing,
            Segment::Static("<b".to_string()),
            Segment::Static("c>".to_string()),
            Segment::Dynamic,
            Segment::Trailing,
        ]
    );
    assert_eq!(pat(""), vec![]);
    assert_eq!(pat("<"), vec![Segment::Static("<".to_string())]);
    assert_eq!(pat("..>"), vec![Segment::Static("..>".to_string())]);
    assert_eq!(pat("/gr\u{fc}n/<\u{fc}..>").len(), 2);
    assert_eq!(pat("/<\u{fc}..>"), vec![Segment::Trailing]);
}

#[test]
fn slashes_in_front_behind_and_doubled_play_no_part() {
    assert!(path_matches(&pat("/a/b"), "a//b/"));
    assert!(path_matches(&pat("a/b/"), "/a/b"));
    assert!(!path_matches(&pat("/a/b"), "/ab"));
    assert!(path_matches(&pat("/"), ""));
}

#[test]
fn a_trailing_segment_ends_a_pattern() {
    assert!(path_matches(&pat("/a/<b..>/c"), "/a/x/y"));
    assert!(path_matches(&pat("/<b..>"), "/"));
    assert!(!path_matches(&pat("/a/<b..>"), "/b"));
}

#[test]
fn coverage_is_all_some_or_none() {
    assert_eq!(coverage(&pat("/<a>"), &pat("/<b..>")), Coverage::Partial);
    assert_eq!(coverage(&pat("/<a..>"), &pat("/<b..>")), Coverage::Full);
    assert_eq!(coverage(&pat("/a/<b..>"), &pat("/<c>/d")), Coverage::Partial);
    assert_eq!(coverage(&pat("/a/b"), &pat("/<c>/d")), Coverage::Disjoint);
    assert_eq!(coverage(&pat("/a/b"), &pat("/a")), Coverage::Disjoint);
    assert_eq!(coverage(&pat("/a/<b>"), &pat("/a")), Coverage::Disjoint);
    assert_eq!(coverage(&pat("/a/b"), &pat("/a/<c..>")), Coverage::Partial);
    assert_eq!(coverage(&pat("/"), &pat("/")), Coverage::Full);
    assert_eq!(coverage(&pat("/"), &pat("/<c..>")), Coverage::Partial);
    assert_eq!(coverage(&pat("/a"), &pat("/a/<b>/<c..>")), Coverage::Disjoint);
    for path in ["/", "/a", "/<a>", "/<a..>", "/a/<b>/c/<d..>"] {
        assert_eq!(coverage(&pat(path), &pat(path)), Coverage::Full);
    }
}

#[test]
fn coverage_agrees_with_the_requests_to_a_route() {
    let patterns = [
        "/", "/a", "/b", "/<x>", "/<x..>", "/a/b", "/a/<x>", "/a/<x..>", "/<x>/b", "/<x>/<y..>",
    ];
    let requests = [
        "/", "/a", "/b", "/c", "/a/a", "/a/b", "/b/b", "/c/b", "/c/d", "/a/b/c", "/b/c/d",
    ];
    for filter in patterns {
        for route in patterns {
            let to_route: Vec<&str> = requests
                .into_iter()
                .filter(|request| path_matches(&pat(route), request))
                .collect();
            let matched = to_route
                .iter()
                .filter(|request| path_matches(&pat(filter), request))
                .count();
            let expected = if matched == to_route.len() {
                Coverage::Full
            } else if matched == 0 {
                Coverage::Disjoint
            } else {
                Coverage::Partial
            };
            assert_eq!(
                coverage(&pat(filter), &pat(route)),
                expected,
                "I expect {filter} to cover {route} as its requests do"
            );
        }
    }
}

#[test]
fn statuses_are_labelled() {
    let conditional = AutoLog::Conditional {
        overlaps: vec!["GET /a".to_string(), "GET /b".to_string()],
    };
    assert_eq!(AutoLog::Always.label(), "always");
    assert_eq!(AutoLog::Never.label(), "never");
    assert_eq!(conditional.label(), "conditional");
    assert_eq!(AutoLog::Always.overlaps_field(), None);
    assert_eq!(AutoLog::Never.overlaps_field(), None);
    assert_eq!(
        conditional.overlaps_field(),
        Some("GET /a, GET /b".to_string())
    );
    assert_eq!(conditional.clone(), conditional);
}

#[test]
fn overlaps_name_skips_before_shows_and_each_once() {
    let filter = ResolvedFilter {
        shown: vec![fp(Method::Get, "/a"), fp(Method::Get, "/c")],
        skipped: vec![
            fp(Method::Get, "/b"),
            fp(Method::Post, "/d"),
            fp(Method::Get, "/a"),
        ],
    };
    assert_eq!(
        filter.classify(Method::Get, &pat("/<x>")),
        AutoLog::Conditional {
            overlaps: vec![
                "GET /b".to_string(),
                "GET /a".to_string(),
                "GET /c".to_string(),
            ]
        }
    );

    let shown_as_a_whole = ResolvedFilter {
        shown: vec![fp(Method::Get, "/<x>"), fp(Method::Get, "/c")],
        skipped: vec![fp(Method::Get, "/b")],
    };
    assert_eq!(
        shown_as_a_whole.classify(Method::Get, &pat("/<x>")),
        AutoLog::Conditional {
            overlaps: vec!["GET /b".to_string()]
        }
    );
    assert_eq!(
        shown_as_a_whole.classify(Method::Post, &pat("/<x>")),
        AutoLog::Never
    );
}

#[test]
fn methods_have_their_names() {
    let names = [
        (Method::Get, "GET"),
        (Method::Put, "PUT"),
        (Method::Post, "POST"),
        (Method::Delete, "DELETE"),
        (Method::Options, "OPTIONS"),
        (Method::Head, "HEAD"),
        (Method::Trace, "TRACE"),
        (Method::Connect, "CONNECT"),
        (Method::Patch, "PATCH"),
    ];
    for (method, name) in names {
        assert_eq!(method.as_str(), name);
    }
}

#[test]
fn queries_are_ignored() {
    assert!(path_matches(&pat("/health"), "/health?verbose=1"));
    assert!(path_matches(&pat("/health"), "/health?next=/a/b"));
    assert!(path_matches(&pat("/"), "?x"));
    assert!(!path_matches(&pat("/health"), "/healthz?health"));
    let filter = ResolvedFilter {
        shown: vec![],
        skipped: vec![fp(Method::Get, "/health")],
    };
    assert!(!filter.should_log(Method::Get, "/health?a?b"));
    assert!(filter.should_log(Method::Post, "/health?a"));
}

#[test]
fn a_conditional_route_logs_some_requests_and_not_others() {
    let skipping = ResolvedFilter {
        shown: vec![],
        skipped: vec![fp(Method::Get, "/a"), fp(Method::Get, "/b")],
    };
    assert_eq!(
        skipping.classify(Method::Get, &pat("/<x>")).label(),
        "conditional"
    );
    assert!(skipping.should_log(Method::Get, "/xx"));
    assert!(!skipping.should_log(Method::Get, "/a"));

    let showing = ResolvedFilter {
        shown: vec![fp(Method::Get, "/a/<x>")],
        skipped: vec![],
    };
    assert_eq!(
        showing.classify(Method::Get, &pat("/a/<x..>")).label(),
        "conditional"
    );
    assert!(showing.should_log(Method::Get, "/a/b"));
    assert!(!showing.should_log(Method::Get, "/a"));
}

#[test]
fn patterns_can_cover_a_trailing_route_only_together() {
    let filter = ResolvedFilter {
        shown: vec![fp(Method::Get, "/"), fp(Method::Get, "/<a>/<b..>")],
        skipped: vec![],
    };
    assert_eq!(
        filter.classify(Method::Get, &pat("/<x..>")).label(),
        "conditional"
    );
    for path in ["/", "/a", "/a/b", "/a/b/c"] {
        assert!(filter.should_log(Method::Get, path));
    }
}

#[test]
fn skips_that_cover_a_route_only_together_are_reported_as_conditional() {
    let filter = ResolvedFilter {
        shown: vec![],
        skipped: vec![fp(Method::Get, "/f"), fp(Method::Get, "/f/<a>/<r..>")],
    };
    assert_eq!(
        filter.classify(Method::Get, &pat("/f/<r..>")).label(),
        "conditional"
    );
    for path in ["/f", "/f/a", "/f/a/b", "/f/a/b/c"] {
        assert!(!filter.should_log(Method::Get, path));
    }
}
