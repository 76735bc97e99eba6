use rocket_slogger::fairing::{
    new_request_line, temp_dir_path_from_rocket_config, url_from_rocket_config, LogDecision,
    LogLine, RequestState,
};
use rocket_slogger::from_request::{from_request, GUARD_FAILURE};
use rocket_slogger::http::{
    Catcher, LaunchConfig, Method, RequestDetails, ResponseDetails, Route,
};
use rocket_slogger::response_log::{Field, ResponseLogSnapshot};
use rocket_slogger::transaction::{RequestTransaction, TimeZone, Timestamp};
use rocket_slogger::{FieldValue, Slogger};

fn text(value: &str) -> FieldValue {
    FieldValue::Str(value.to_string())
}

fn config() -> LaunchConfig {
    LaunchConfig {
        log_level: "normal".to_string(),
        temp_dir: Some("/tmp".to_string()),
        ident: "Rocket".to_string(),
        tls: false,
        limits: "forms = 32KiB".to_string(),
        keep_alive: 5,
        workers: 16,
        port: 8000,
        address: "127.0.0.1".to_string(),
        profile: "debug".to_string(),
    }
}

fn route(name: Option<&str>, path: &str, query: &str) -> Route {
    Route {
        method: Method::Get,
        name: name.map(str::to_string),
        unmounted: path.to_string(),
        path: path.to_string(),
        uri: format!("{path}{query}"),
        rank: -7,
        format: Some("text/html".to_string()),
    }
}

fn request(route: Option<Route>) -> RequestDetails {
    RequestDetails {
        method: Method::Head,
        uri: "/a/1?x=2".to_string(),
        path: "/a/1".to_string(),
        content_type: Some("application/json".to_string()),
        user_agents: vec!["one".to_string(), "two".to_string()],
        route,
    }
}

fn response() -> ResponseDetails {
    ResponseDetails {
        content_type: None,
        code: 404,
        reason: Some("Not Found".to_string()),
    }
}

fn transaction() -> RequestTransaction {
    RequestTransaction {
        id: 0x936da01f_9abd_4d9d_80c7_02af85c822a8,
        received: Timestamp::new(1_431_648_000, 0, 0).expect("I expect a point in time"),
    }
}

fn assert_line(line: &LogLine, message: &str, fields: Vec<Field>) {
    assert_eq!(line.message, message);
    assert_eq!(line.fields, fields);
}

#[test]
fn the_url_names_scheme_address_and_port() {
    let mut config = config();
    assert_eq!(url_from_rocket_config(&config), "http://127.0.0.1:8000");
    config.tls = true;
    config.port = 0;
    assert_eq!(url_from_rocket_config(&config), "https://127.0.0.1:0");
    config.port = 65_535;
    assert_eq!(url_from_rocket_config(&config), "https://127.0.0.1:65535");
}

#[test]
fn a_temp_dir_that_is_no_text_is_empty() {
    let mut config = config();
    assert_eq!(temp_dir_path_from_rocket_config(&config), "/tmp");
    config.temp_dir = None;
    assert_eq!(temp_dir_path_from_rocket_config(&config), "");
}

#[test]
fn a_launch_is_reported_line_by_line() {
    let slogger = Slogger::from_logger("root");
    let routes = vec![route(Some("a"), "/a/<id>", "?<x>"), route(None, "/b", "")];
    let catchers = vec![
        Catcher {
            name: Some("lost".to_string()),
            code: Some(404),
            base: "/a".to_string(),
        },
        Catcher {
            name: None,
            code: None,
            base: "/".to_string(),
        },
    ];
    let resolved = slogger.resolved_filter(&routes);
    let lines = slogger.on_liftoff(&resolved, &config(), &routes, &catchers);

    assert_eq!(lines.len(), 6);
    assert_line(
        &lines[0],
        "Rocket Launched",
        vec![
            ("profile", text("debug")),
            ("url", text("http://127.0.0.1:8000")),
            ("host", text("127.0.0.1")),
            ("port", FieldValue::U64(8000)),
            ("workers", FieldValue::U64(16)),
            ("keep_alive", FieldValue::U64(5)),
            ("limits", text("forms = 32KiB")),
            ("tls", FieldValue::Bool(false)),
            ("ident", text("Rocket")),
            ("temp_dir", text("/tmp")),
            ("log_level", text("normal")),
        ],
    );
    assert_line(
        &lines[1],
        "Route Registered",
        vec![
            ("method", text("GET")),
            ("url", text("http://127.0.0.1:8000/a/<id>?<x>")),
            ("path", text("/a/<id>?<x>")),
            ("content-type", text("text/html")),
            ("route", text("a")),
            ("rank", FieldValue::I64(-7)),
            ("auto_log", text("always")),
            ("auto_log_overlaps", FieldValue::Null),
        ],
    );
    assert_eq!(lines[2].fields[4], ("route", FieldValue::Null));
    assert_line(
        &lines[3],
        "Catcher Registered",
        vec![
            ("url", text("http://127.0.0.1:8000/a")),
            ("path", text("/a")),
            ("code", FieldValue::U64(404)),
            ("route", text("lost")),
        ],
    );
    assert_line(
        &lines[4],
        "Catcher Registered",
        vec![
            ("url", text("http://127.0.0.1:8000/")),
            ("path", text("/")),
            ("code", FieldValue::Null),
            ("route", FieldValue::Null),
        ],
    );
    assert_line(
        &lines[5],
        "Accepting Connections",
        vec![
            ("url", text("http://127.0.0.1:8000")),
            ("host", text("127.0.0.1")),
            ("port", FieldValue::U64(8000)),
        ],
    );
}

#[test]
fn a_launch_reports_active_filtering() {
    let routes = vec![
        route(Some("any"), "/a/<id>", ""),
        route(Some("one"), "/a/one", ""),
        route(Some("two"), "/b", ""),
    ];
    let slogger = Slogger::from_logger("root")
        .skip_reqres_logs(vec![
            route(Some("one"), "/a/one", ""),
            route(Some("gone"), "/gone", ""),
        ])
        .show_reqres_logs(vec![route(Some("any"), "/a/<id>", "")]);
    let resolved = slogger.resolved_filter(&routes);
    assert_eq!(resolved.shown.len(), 1);
    assert_eq!(resolved.skipped.len(), 1, "I expect an unmounted route to resolve to nothing");
    let lines = slogger.on_liftoff(&resolved, &config(), &routes, &[]);

    assert_eq!(lines.len(), 6);
    assert_line(
        &lines[1],
        "Request/Response Log Filtering Active",
        vec![("skip", FieldValue::U64(2)), ("show", FieldValue::U64(1))],
    );
    assert_eq!(lines[2].fields[6], ("auto_log", text("conditional")));
    assert_eq!(lines[2].fields[7], ("auto_log_overlaps", text("GET /a/one")));
    assert_eq!(lines[3].fields[6], ("auto_log", text("never")));
    assert_eq!(lines[3].fields[7], ("auto_log_overlaps", FieldValue::Null));
    assert_eq!(lines[4].fields[6], ("auto_log", text("never")));
}

#[test]
fn a_request_line_has_its_fields() {
    let slogger = Slogger::from_logger("root");
    let unrouted = slogger.get_for_request(&request(None), None);
    assert_eq!(*unrouted.logger, "root");
    assert_eq!(
        unrouted.fields,
        vec![
            ("uri", text("/a/1?x=2")),
            ("method", text("HEAD")),
            ("content-type", text("application/json")),
            ("user-agent", text("one; two")),
        ]
    );

    let transaction = transaction();
    let routed = slogger.get_for_request(
        &request(Some(route(None, "/a/<id>", "?<x>"))),
        Some(&transaction),
    );
    assert_eq!(
        routed.fields,
        vec![
            ("uri", text("/a/1?x=2")),
            ("method", text("GET")),
            ("path", text("/a/<id>?<x>")),
            ("route", FieldValue::Null),
            ("rank", FieldValue::I64(-7)),
            ("content-type", text("application/json")),
            ("user-agent", text("one; two")),
            ("transaction", text("936da01f-9abd-4d9d-80c7-02af85c822a8")),
            ("received", text("2015-05-15T00:00:00+00:00")),
        ]
    );

    let mut bare = request(None);
    bare.content_type = None;
    bare.user_agents = vec![];
    let bare = slogger.get_for_request(&bare, None);
    assert_eq!(bare.fields[2], ("content-type", FieldValue::Null));
    assert_eq!(bare.fields[3], ("user-agent", text("")));
}

#[test]
fn a_response_line_has_its_fields() {
    let slogger = Slogger::from_logger("root");
    let routed = request(Some(route(Some("a"), "/a/<id>", "")));
    let plain = slogger.get_for_response(&routed, &response(), None);
    assert_eq!(
        plain.fields,
        vec![
            ("uri", text("/a/1?x=2")),
            ("method", text("GET")),
            ("path", text("/a/<id>")),
            ("route", text("a")),
            ("rank", FieldValue::I64(-7)),
            ("code", FieldValue::U64(404)),
            ("reason", text("Not Found")),
            ("content-type", FieldValue::Null),
        ]
    );

    let transaction = transaction();
    for (elapsed, value) in [
        (Some(1_500), FieldValue::I64(1_500)),
        (None, FieldValue::Null),
    ] {
        let timed = slogger.get_for_response_after(
            &routed,
            &response(),
            Some((&transaction, elapsed)),
        );
        assert_eq!(
            timed.fields[8..],
            [
                ("transaction", text("936da01f-9abd-4d9d-80c7-02af85c822a8")),
                ("received", text("2015-05-15T00:00:00+00:00")),
                ("elapsed_ns", value),
            ]
        );
    }

    let read = slogger.get_for_response(&routed, &response(), Some(&transaction));
    assert!(
        matches!(read.fields[10], ("elapsed_ns", FieldValue::I64(elapsed)) if elapsed > 0),
        "I expect the time since the request was received"
    );
}

#[test]
fn a_decision_is_kept_from_request_to_response() {
    let mut cached = None;
    assert_eq!(LogDecision(false).attach_on(&mut cached), LogDecision(false));
    assert_eq!(LogDecision(true).attach_on(&mut cached), LogDecision(false));
    assert_eq!(cached, Some(LogDecision(false)));
}

#[test]
fn a_response_without_a_decision_is_logged() {
    let slogger = Slogger::from_logger("root");
    let mut state = RequestState::new();
    let enriched = slogger.begin_response(&mut state, &request(None), &response(), None);
    assert!(enriched.is_some());
    assert_eq!(state.decision, Some(LogDecision(true)));
    assert!(state.transaction.is_none());
}

#[test]
fn an_unlogged_request_begins_no_transaction() {
    let routes = vec![route(Some("a"), "/a/<id>", "")];
    let listed = vec![route(Some("a"), "/a/<id>", "")];
    let slogger = Slogger::from_logger("root").skip_reqres_logs(listed);
    let resolved = slogger.resolved_filter(&routes);
    let mut state = RequestState::new();
    let mut request = request(None);
    request.method = Method::Get;
    assert!(slogger
        .begin_request(&resolved, &mut state, &request, Some(TimeZone::Utc))
        .is_none());
    assert!(state.transaction.is_none());
    assert!(slogger
        .begin_response(&mut state, &request, &response(), Some(TimeZone::Utc))
        .is_none());
    assert!(slogger
        .with_request_id_header()
        .finish_response(&mut state, ResponseLogSnapshot::new(), None, TimeZone::Utc)
        .is_none());
    assert!(state.transaction.is_none());
}

#[test]
fn a_cached_transaction_is_used_for_line_and_header() {
    let slogger = Slogger::from_logger("root").with_request_id_header();
    let resolved = slogger.resolved_filter(&[]);
    let mut state = RequestState::new();
    transaction().attach_on(&mut state.transaction);
    let enriched = slogger
        .begin_request(&resolved, &mut state, &request(None), Some(TimeZone::Utc))
        .expect("I expect the request to be logged");
    let id = "936da01f-9abd-4d9d-80c7-02af85c822a8";
    assert_eq!(enriched.fields[4], ("transaction", text(id)));
    let finish = slogger
        .finish_response(&mut state, ResponseLogSnapshot::new(), None, TimeZone::Utc)
        .expect("I expect a logged response");
    assert_eq!(
        finish.header.map(|header| (header.name, header.value)),
        Some(("X-Request-Id", id.to_string()))
    );
    assert!(finish.layer.is_none(), "I expect an empty bag to add no layer");
    assert_line(&finish.line, "Response", vec![("size", FieldValue::Null)]);
}

#[test]
fn a_finished_response_carries_its_fields_and_size() {
    let slogger = Slogger::from_logger("root");
    let mut state = RequestState::new();
    let mut snapshot = ResponseLogSnapshot::new();
    snapshot.record("user", FieldValue::from("ada"));
    let finish = slogger
        .finish_response(&mut state, snapshot, Some(12), TimeZone::Utc)
        .expect("I expect a logged response");
    assert!(finish.header.is_none());
    assert_eq!(finish.layer, Some(vec![("user", text("ada"))]));
    assert_line(&finish.line, "Response", vec![("size", FieldValue::U64(12))]);
    assert_line(&new_request_line(), "Request", vec![]);
}

#[test]
fn a_guard_fails_without_a_logger() {
    assert_eq!(from_request::<&str>(None).err(), Some(GUARD_FAILURE));
    assert_eq!(GUARD_FAILURE, 500);
    let guard = from_request(Some("enriched")).ok().expect("I expect a logger");
    assert_eq!(*guard.get(), "enriched");
    assert!(guard.filter_show.is_empty() && guard.filter_skip.is_empty());
}

#[test]
fn a_slogger_wraps_and_copies_its_logger() {
    let slogger: Slogger<String> = Slogger::from("root".to_string());
    assert_eq!(slogger.len(), 4, "I expect a slogger to stand for its logger");
    let borrowed: Slogger<String> = Slogger::from(&slogger.logger);
    assert_eq!(borrowed.get(), "root");
    let copy = slogger
        .skip_reqres_logs(vec![route(Some("a"), "/a", "")])
        .with_request_id_header()
        .clone();
    assert_eq!(copy.filter_skip.len(), 1);
    assert!(copy.emit_request_id_header);
}

#[test]
fn local_transactions_are_begun_where_asked_for() {
    let slogger = Slogger::from_logger("root").with_request_id_header();
    let resolved = slogger.resolved_filter(&[]);
    let mut state = RequestState::new();
    let enriched = slogger
        .begin_request(&resolved, &mut state, &request(None), Some(TimeZone::Local))
        .expect("I expect the request to be logged");
    let transaction = state.transaction.expect("I expect a transaction");
    assert_eq!(
        enriched.fields[5],
        ("received", text(&transaction.received_as_string()))
    );
    let finish = slogger
        .finish_response(&mut state, ResponseLogSnapshot::new(), None, TimeZone::Local)
        .expect("I expect a logged response");
    assert_eq!(
        finish.header.map(|header| header.value),
        Some(transaction.id_as_string())
    );
}
