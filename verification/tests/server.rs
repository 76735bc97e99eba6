use rocket_slogger::fairing::{new_request_line, HandlerRun, LogLine, RequestState};
use rocket_slogger::filter::ResolvedFilter;
use rocket_slogger::http::{Method, RequestDetails, ResponseDetails, Route};
use rocket_slogger::response_log::Field;
use rocket_slogger::transaction::TimeZone;
use rocket_slogger::{FieldValue, ResponseLog, Slogger};
use std::cell::RefCell;
use std::rc::Rc;
use uuid::Uuid;

/// A logger that only carries its fields, the newest first.
#[derive(Clone, Default)]
struct Logger {
    fields: Vec<(String, String)>,
}

fn rendered(value: &FieldValue) -> String {
    match value {
        FieldValue::Str(value) => value.clone(),
        FieldValue::I64(value) => value.to_string(),
        FieldValue::U64(value) => value.to_string(),
        FieldValue::F64(bits) => f64::from_bits(*bits).to_string(),
        FieldValue::Bool(value) => value.to_string(),
        FieldValue::Null => "None".to_string(),
    }
}

impl Logger {
    fn with(&self, fields: &[Field]) -> Logger {
        let mut all: Vec<(String, String)> = fields
            .iter()
            .map(|(key, value)| (key.to_string(), rendered(value)))
            .collect();
        all.extend(self.fields.clone());
        Logger { fields: all }
    }
}

type Captured = Vec<(String, Vec<(String, String)>)>;

type Hook = Box<dyn Fn(Logger) -> Option<Logger>>;

/// A server that runs the logging rules for each request and captures the lines.
struct Server {
    slogger: Slogger<Logger>,
    resolved: ResolvedFilter,
    transactions: Option<TimeZone>,
    request_hooks: Vec<Hook>,
    response_hooks: Vec<Hook>,
    lines: RefCell<Captured>,
}

impl Server {
    fn new(slogger: Slogger<Logger>, mounted: Vec<Route>) -> Server {
        let resolved = slogger.resolved_filter(&mounted);
        Server {
            slogger,
            resolved,
            transactions: Some(TimeZone::Utc),
            request_hooks: vec![],
            response_hooks: vec![],
            lines: RefCell::new(vec![]),
        }
    }

    fn write(&self, logger: &Logger, line: &LogLine) {
        self.lines
            .borrow_mut()
            .push((line.message.to_string(), logger.with(&line.fields).fields));
    }

    /// Answers a request, and returns the value of the id header of the response.
    fn get_with(&self, path: &str, handler: impl Fn(&mut ResponseLog)) -> Option<String> {
        let request = RequestDetails {
            method: Method::Get,
            uri: path.to_string(),
            path: path.to_string(),
            content_type: None,
            user_agents: vec![],
            route: None,
        };
        let mut state = RequestState::new();
        if let Some(enriched) = self.slogger.begin_request(
            &self.resolved,
            &mut state,
            &request,
            self.transactions,
        ) {
            let logger = run(
                &self.request_hooks,
                enriched.logger.with(&enriched.fields),
            );
            self.write(&logger, &new_request_line());
        }

        let mut bag = ResponseLog::default();
        handler(&mut bag);

        let response = ResponseDetails {
            content_type: None,
            code: 200,
            reason: Some("OK".to_string()),
        };
        let enriched =
            self.slogger
                .begin_response(&mut state, &request, &response, self.transactions)?;
        let logger = run(
            &self.response_hooks,
            enriched.logger.with(&enriched.fields),
        );
        let finish = self
            .slogger
            .finish_response(&mut state, bag.snapshot(), Some(4), TimeZone::Utc)
            .expect("I expect a response that was taken up to be finished");
        let logger = match finish.layer {
            Some(fields) => logger.with(&fields),
            None => logger,
        };
        self.write(&logger, &finish.line);
        finish.header.map(|header| {
            assert_eq!(header.name, "X-Request-Id");
            header.value
        })
    }

    fn get(&self, path: &str) -> Option<String> {
        self.get_with(path, |_| {})
    }

    fn count(&self, message: &str) -> usize {
        self.lines
            .borrow()
            .iter()
            .filter(|(logged, _)| logged == message)
            .count()
    }

    fn value_of(&self, message: &str, key: &str) -> Option<String> {
        self.lines
            .borrow()
            .iter()
            .find(|(logged, _)| logged == message)
            .and_then(|(_, fields)| {
                fields
                    .iter()
                    .find(|(field_key, _)| field_key == key)
                    .map(|(_, value)| value.clone())
            })
    }
}

fn run(hooks: &[Hook], logger: Logger) -> Logger {
    let mut run = HandlerRun::new(logger, hooks.len());
    while let Some(index) = run.pending() {
        let reply = hooks[index](run.logger.clone());
        run.reply(reply);
    }
    run.logger
}

fn route_at(base: &str, name: &str, path: &str) -> Route {
    let mounted = format!("{base}{path}");
    Route {
        method: Method::Get,
        name: Some(name.to_string()),
        unmounted: path.to_string(),
        path: mounted.clone(),
        uri: mounted,
        rank: -12,
        format: None,
    }
}

fn keep() -> Route {
    route_at("", "keep", "/keep")
}

fn skip() -> Route {
    route_at("", "skip", "/skip")
}

fn item() -> Route {
    route_at("", "item", "/item/<id>")
}

fn slogger() -> Slogger<Logger> {
    Slogger::from_logger(Logger::default())
}

fn server_with(slogger: Slogger<Logger>) -> Server {
    Server::new(slogger, vec![keep(), skip()])
}

#[test]
fn test_skip_reqres_logs_stores_one_key() {
    let slogger = slogger().skip_reqres_logs(vec![skip()]);
    assert_eq!(
        slogger.filter_skip.len(),
        1,
        "I expect one skipped route key"
    );
    assert_eq!(slogger.filter_show.len(), 0, "I expect no shown-route keys");
}

#[test]
fn test_show_reqres_logs_accumulates_keys() {
    let slogger = slogger()
        .show_reqres_logs(vec![skip()])
        .show_reqres_logs(vec![keep()]);
    assert_eq!(
        slogger.filter_show.len(),
        2,
        "I expect two accumulated shown-route keys"
    );
}

#[test]
fn test_denied_route_produces_no_lines() {
    let server = server_with(slogger().skip_reqres_logs(vec![skip()]));

    server.get("/skip");
    assert_eq!(
        server.count("Request"),
        0,
        "I expect no Request line for a denied route"
    );
    assert_eq!(
        server.count("Response"),
        0,
        "I expect no Response line for a denied route"
    );

    server.get("/keep");
    assert_eq!(
        server.count("Request"),
        1,
        "I expect a Request line for a non-denied route"
    );
    assert_eq!(
        server.count("Response"),
        1,
        "I expect a Response line for a non-denied route"
    );
}

#[test]
fn test_allowlist_logs_only_allowed() {
    let server = server_with(slogger().show_reqres_logs(vec![keep()]));

    server.get("/skip");
    assert_eq!(
        server.count("Request"),
        0,
        "I expect no Request line for a route outside the allowlist"
    );

    server.get("/keep");
    assert_eq!(
        server.count("Request"),
        1,
        "I expect a Request line for an allowed route"
    );
    assert_eq!(
        server.count("Response"),
        1,
        "I expect a Response line for an allowed route"
    );
}

#[test]
fn test_no_lists_logs_everything() {
    let server = server_with(slogger());

    server.get("/skip");
    server.get("/keep");
    assert_eq!(
        server.count("Request"),
        2,
        "I expect both routes to log a Request line"
    );
    assert_eq!(
        server.count("Response"),
        2,
        "I expect both routes to log a Response line"
    );
}

#[test]
fn test_filter_resolves_under_nonroot_mount() {
    // The whole point of resolving by route handle is that it survives mounting
    // at any base. Mount at /api and confirm the skip still lands.
    let server = Server::new(
        slogger().skip_reqres_logs(vec![skip()]),
        vec![
            route_at("/api", "keep", "/keep"),
            route_at("/api", "skip", "/skip"),
        ],
    );

    server.get("/api/skip");
    assert_eq!(
        server.count("Request"),
        0,
        "I expect a skipped route to stay skipped when mounted at a non-root base"
    );

    server.get("/api/keep");
    assert_eq!(
        server.count("Request"),
        1,
        "I expect a non-skipped route to log when mounted at a non-root base"
    );
}

#[test]
fn test_show_and_skip_combined_deny_wins() {
    let server = server_with(
        slogger()
            .show_reqres_logs(vec![keep(), skip()])
            .skip_reqres_logs(vec![skip()]),
    );

    server.get("/skip");
    assert_eq!(
        server.count("Request"),
        0,
        "I expect skip to win over show when a route is on both lists"
    );

    server.get("/keep");
    assert_eq!(
        server.count("Request"),
        1,
        "I expect a shown, non-skipped route to log"
    );
}

#[test]
fn test_dynamic_route_filtered_by_handle() {
    let server = Server::new(
        slogger().skip_reqres_logs(vec![item()]),
        vec![item(), keep()],
    );

    server.get("/item/42");
    assert_eq!(
        server.count("Request"),
        0,
        "I expect a dynamic route skipped by handle to produce no lines"
    );

    server.get("/keep");
    assert_eq!(
        server.count("Request"),
        1,
        "I expect an unlisted route to still log"
    );
}

#[test]
fn test_header_present_and_valid_uuid_when_opted_in() {
    let server = server_with(slogger().with_request_id_header());

    let header = server
        .get("/keep")
        .expect("I expect an X-Request-Id header on a logged response");
    Uuid::parse_str(&header).expect("I expect the X-Request-Id header to be a valid UUID");
}

#[test]
fn test_header_absent_when_not_opted_in() {
    let server = server_with(slogger());

    assert!(
        server.get("/keep").is_none(),
        "I expect no X-Request-Id header when the option is off"
    );
}

#[test]
fn test_header_absent_on_denied_route() {
    let server = server_with(
        slogger()
            .with_request_id_header()
            .skip_reqres_logs(vec![skip()]),
    );

    assert!(
        server.get("/skip").is_none(),
        "I expect no X-Request-Id header on a denied (unlogged) route"
    );
}

#[test]
fn test_header_matches_logged_transaction_id() {
    let server = server_with(slogger().with_request_id_header());

    let header = server
        .get("/keep")
        .expect("I expect an X-Request-Id header on a logged response");

    let lines = server.lines.borrow();
    let logged: Vec<&String> = lines
        .iter()
        .flat_map(|(_, fields)| fields)
        .filter(|(key, _)| key == "transaction")
        .map(|(_, value)| value)
        .collect();
    assert!(
        !logged.is_empty(),
        "I expect the logs to carry a transaction id"
    );
    assert!(
        logged.iter().all(|id| **id == header),
        "I expect every logged transaction id to equal the header id"
    );
}

#[test]
fn test_on_request_callback_adds_field_to_request_line() {
    let mut server = server_with(slogger());
    server.request_hooks.push(Box::new(|logger| {
        Some(logger.with(&[("req_field", FieldValue::from("req_val"))]))
    }));

    server.get("/keep");

    assert_eq!(
        server.value_of("Request", "req_field"),
        Some("req_val".to_string()),
        "I expect the on_request callback field to land on the Request line"
    );
}

#[test]
fn test_on_response_callback_adds_field_to_response_line() {
    let mut server = server_with(slogger());
    server.response_hooks.push(Box::new(|logger| {
        Some(logger.with(&[("res_field", FieldValue::from("res_val"))]))
    }));

    server.get("/keep");

    assert_eq!(
        server.value_of("Response", "res_field"),
        Some("res_val".to_string()),
        "I expect the on_response callback field to land on the Response line"
    );
}

#[test]
fn test_callback_returning_none_keeps_the_prior_logger() {
    let mut server = server_with(slogger());
    server.request_hooks.push(Box::new(|logger| {
        Some(logger.with(&[("kept", FieldValue::from("yes"))]))
    }));
    // A handler that declines to enrich must not discard the prior logger.
    server.request_hooks.push(Box::new(|_logger| None));

    server.get("/keep");

    assert_eq!(
        server.value_of("Request", "kept"),
        Some("yes".to_string()),
        "I expect a None-returning handler to leave the earlier handler's field intact"
    );
}

#[test]
fn test_handlers_run_in_registration_order() {
    let order = Rc::new(RefCell::new(Vec::<&'static str>::new()));

    let first = order.clone();
    let second = order.clone();
    let mut server = server_with(slogger());
    server.request_hooks.push(Box::new(move |logger| {
        first.borrow_mut().push("first");
        Some(logger)
    }));
    server.request_hooks.push(Box::new(move |logger| {
        second.borrow_mut().push("second");
        Some(logger)
    }));

    server.get("/keep");

    assert_eq!(
        *order.borrow(),
        vec!["first", "second"],
        "I expect request handlers to run in the order they were registered"
    );
}

fn handler(log: &mut ResponseLog) {
    log.set("user_id", "u-1");
    log.set("record_count", 5_i64);
    log.set_some("tenant", Some(99_u64));
    log.set_some("absent", None::<String>);
}

#[test]
fn test_guard_set_fields_land_on_response_line() {
    let server = server_with(slogger());
    server.get_with("/handler", handler);

    assert_eq!(
        server.value_of("Response", "user_id"),
        Some("u-1".to_string()),
        "I expect a field set through the ResponseLog guard to land on the Response line"
    );
    assert_eq!(
        server.value_of("Response", "record_count"),
        Some("5".to_string()),
        "I expect a numeric field set through the guard to land on the Response line"
    );
}

#[test]
fn test_set_some_some_lands_and_none_is_absent() {
    let server = server_with(slogger());
    server.get_with("/handler", handler);

    assert_eq!(
        server.value_of("Response", "tenant"),
        Some("99".to_string()),
        "I expect set_some(Some) to land on the Response line"
    );
    assert_eq!(
        server.value_of("Response", "absent"),
        None,
        "I expect set_some(None) to leave the field off the Response line entirely"
    );
}

#[test]
fn test_fields_do_not_leak_onto_the_request_line() {
    let server = server_with(slogger());
    server.get_with("/handler", handler);

    assert_eq!(
        server.value_of("Request", "user_id"),
        None,
        "I expect handler-set fields not to appear on the Request line, which is emitted before routing"
    );
}

#[test]
fn test_ext_response_log_writes_through_to_the_response_line() {
    let server = server_with(slogger());
    server.get_with("/guard", |log| log.set("from_guard", "ext"));

    assert_eq!(
        server.value_of("Response", "from_guard"),
        Some("ext".to_string()),
        "I expect a field set through a handle on the request's bag to land on the Response line"
    );
}

#[test]
fn lines_carry_no_id_without_transactions() {
    let mut server = server_with(slogger());
    server.transactions = None;
    assert_eq!(server.get("/keep"), None);
    assert_eq!(server.count("Request"), 1);
    for message in ["Request", "Response"] {
        assert_eq!(server.value_of(message, "transaction"), None);
        assert_eq!(server.value_of(message, "received"), None);
        assert_eq!(server.value_of(message, "elapsed_ns"), None);
    }
}

#[test]
fn each_request_has_an_id_of_its_own() {
    let server = server_with(slogger().with_request_id_header());
    let first = server.get("/keep");
    let second = server.get("/keep");
    assert!(first.is_some());
    assert_ne!(first, second);
}

#[test]
fn a_hook_that_never_replies_leaves_the_logger() {
    let mut run = HandlerRun::new("root", 2);
    assert_eq!(run.pending(), Some(0));
    run.reply(None);
    assert_eq!((run.pending(), run.logger), (Some(1), "root"));
    run.reply(Some("given"));
    assert_eq!((run.pending(), run.logger), (None, "given"));
    assert_eq!(HandlerRun::new("root", 0).pending(), None);
}
