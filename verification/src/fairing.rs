//! The automatic log lines: at launch, for each request and for each response.

use crate::filter::{parsed, AutoLogView, ResolvedFilter, ResolvedFilterView, Segment};
use crate::http::{Catcher, LaunchConfig, RequestDetails, ResponseDetails, Route};
use crate::path::request_segments;
use crate::response_log::{
    fields_of, Field, FieldValue, FieldValueView, FieldView, ResponseLogSnapshot,
};
use crate::text::{decimal, decimal_text};
use crate::transaction::{
    counted, nanoseconds_from, uuid_text, RequestTransaction, TimeZone, TimestampView,
};
use crate::{
    optional_field, optional_value, request_fields, response_fields, text_field, text_value,
    transaction_fields, Enriched, Slogger,
};
use vstd::prelude::*;

verus! {

/// A line to write to the log: its message and the fields of its own.
#[derive(Debug)]
pub struct LogLine {
    pub message: &'static str,
    pub fields: Vec<Field>,
}

/// A [`LogLine`], its texts taken as the characters that they hold.
#[verifier::ext_equal]
pub struct LogLineView {
    pub message: Seq<char>,
    pub fields: Seq<FieldView>,
}

impl View for LogLine {
    type V = LogLineView;

    open spec fn view(&self) -> LogLineView {
        LogLineView { message: self.message@, fields: fields_of(self.fields@) }
    }
}

/// The lines that the values stand for.
pub open spec fn lines_of(lines: Seq<LogLine>) -> Seq<LogLineView> {
    lines.map_values(|line: LogLine| line@)
}

/// The address of the server, with the scheme that it speaks.
pub open spec fn server_url(config: LaunchConfig) -> Seq<char> {
    (if config.tls {
        "https"@
    } else {
        "http"@
    }) + "://"@ + config.address@ + ":"@ + decimal(config.port as nat)
}

/// The address of the server, with the scheme that it speaks.
pub fn url_from_rocket_config(config: &LaunchConfig) -> (url: String)
    ensures
        url@ == server_url(*config),
{
    let mut url = String::new();
    url.append(
        if config.tls {
            "https"
        } else {
            "http"
        },
    );
    url.append("://");
    url.append(config.address.as_str());
    url.append(":");
    let port = decimal_text(config.port as u64);
    url.append(port.as_str());
    assert(url@ =~= server_url(*config));
    url
}

/// The directory for temporary files, or nothing where its path is not text.
pub open spec fn temp_dir_text(config: LaunchConfig) -> Seq<char> {
    match config.temp_dir {
        Some(path) => path@,
        None => Seq::empty(),
    }
}

/// The directory for temporary files, or an empty text where its path is not text.
pub fn temp_dir_path_from_rocket_config(config: &LaunchConfig) -> (path: String)
    ensures
        path@ == temp_dir_text(*config),
{
    match &config.temp_dir {
        Some(path) => path.clone(),
        None => String::new(),
    }
}

/// The line that tells the configuration of the server.
pub open spec fn launched_line(config: LaunchConfig) -> LogLineView {
    LogLineView {
        message: "Rocket Launched"@,
        fields: seq![
            ("profile"@, text_value(config.profile)),
            ("url"@, FieldValueView::Str(server_url(config))),
            ("host"@, text_value(config.address)),
            ("port"@, FieldValueView::U64(config.port as u64)),
            ("workers"@, FieldValueView::U64(config.workers as u64)),
            ("keep_alive"@, FieldValueView::U64(config.keep_alive as u64)),
            ("limits"@, text_value(config.limits)),
            ("tls"@, FieldValueView::Bool(config.tls)),
            ("ident"@, text_value(config.ident)),
            ("temp_dir"@, FieldValueView::Str(temp_dir_text(config))),
            ("log_level"@, text_value(config.log_level)),
        ],
    }
}

/// The line that tells how many routes are listed, where any are.
pub open spec fn filtering_lines(shown: nat, skipped: nat) -> Seq<LogLineView> {
    if shown == 0 && skipped == 0 {
        Seq::empty()
    } else {
        seq![
            LogLineView {
                message: "Request/Response Log Filtering Active"@,
                fields: seq![
                    ("skip"@, FieldValueView::U64(skipped as u64)),
                    ("show"@, FieldValueView::U64(shown as u64)),
                ],
            },
        ]
    }
}

/// The value of the overlaps of a status: null for a status that names none.
pub open spec fn overlaps_value(status: AutoLogView) -> FieldValueView {
    match status.overlaps_text() {
        Some(text) => FieldValueView::Str(text),
        None => FieldValueView::Null,
    }
}

/// The line that tells of a route, and whether its requests are logged.
pub open spec fn route_line(
    resolved: ResolvedFilterView,
    url: Seq<char>,
    route: Route,
) -> LogLineView {
    let status = resolved.classification(route.method, parsed(route.path@));
    LogLineView {
        message: "Route Registered"@,
        fields: seq![
            ("method"@, FieldValueView::Str(route.method.name())),
            ("url"@, FieldValueView::Str(url + route.uri@)),
            ("path"@, text_value(route.uri)),
            ("content-type"@, optional_value(route.format)),
            ("route"@, optional_value(route.name)),
            ("rank"@, FieldValueView::I64(route.rank as i64)),
            ("auto_log"@, FieldValueView::Str(status.label())),
            ("auto_log_overlaps"@, overlaps_value(status)),
        ],
    }
}

/// The value of a status code that may be absent.
pub open spec fn code_value(code: Option<u16>) -> FieldValueView {
    match code {
        Some(code) => FieldValueView::U64(code as u64),
        None => FieldValueView::Null,
    }
}

/// The line that tells of an error catcher.
pub open spec fn catcher_line(url: Seq<char>, catcher: Catcher) -> LogLineView {
    LogLineView {
        message: "Catcher Registered"@,
        fields: seq![
            ("url"@, FieldValueView::Str(url + catcher.base@)),
            ("path"@, text_value(catcher.base)),
            ("code"@, code_value(catcher.code)),
            ("route"@, optional_value(catcher.name)),
        ],
    }
}

/// The line that tells where the server listens.
pub open spec fn accepting_line(config: LaunchConfig) -> LogLineView {
    LogLineView {
        message: "Accepting Connections"@,
        fields: seq![
            ("url"@, FieldValueView::Str(server_url(config))),
            ("host"@, text_value(config.address)),
            ("port"@, FieldValueView::U64(config.port as u64)),
        ],
    }
}

/// The lines of a launch: the configuration, the filtering where it is configured, each route,
/// each catcher, and where the server listens.
pub open spec fn launch_report(
    shown: nat,
    skipped: nat,
    resolved: ResolvedFilterView,
    config: LaunchConfig,
    routes: Seq<Route>,
    catchers: Seq<Catcher>,
) -> Seq<LogLineView> {
    let url = server_url(config);
    seq![launched_line(config)] + filtering_lines(shown, skipped) + routes.map_values(
        |route: Route| route_line(resolved, url, route),
    ) + catchers.map_values(|catcher: Catcher| catcher_line(url, catcher)) + seq![
        accepting_line(config),
    ]
}

/// Tells the configuration of the server.
fn report_config(config: &LaunchConfig, url: &String) -> (line: LogLine)
    requires
        url@ == server_url(*config),
    ensures
        line@ == launched_line(*config),
{
    let mut fields: Vec<Field> = Vec::new();
    fields.push(("profile", text_field(&config.profile)));
    fields.push(("url", text_field(url)));
    fields.push(("host", text_field(&config.address)));
    fields.push(("port", FieldValue::U64(config.port as u64)));
    fields.push(("workers", FieldValue::U64(config.workers as u64)));
    fields.push(("keep_alive", FieldValue::U64(config.keep_alive as u64)));
    fields.push(("limits", text_field(&config.limits)));
    fields.push(("tls", FieldValue::Bool(config.tls)));
    fields.push(("ident", text_field(&config.ident)));
    fields.push(("temp_dir", FieldValue::Str(temp_dir_path_from_rocket_config(config))));
    fields.push(("log_level", text_field(&config.log_level)));
    assert(fields_of(fields@) =~= launched_line(*config).fields);
    LogLine { message: "Rocket Launched", fields }
}

/// Tells how many routes are listed.
fn report_filtering(shown: usize, skipped: usize) -> (line: LogLine)
    requires
        shown > 0 || skipped > 0,
    ensures
        seq![line@] == filtering_lines(shown as nat, skipped as nat),
{
    let mut fields: Vec<Field> = Vec::new();
    fields.push(("skip", FieldValue::U64(skipped as u64)));
    fields.push(("show", FieldValue::U64(shown as u64)));
    assert(fields_of(fields@) =~= filtering_lines(shown as nat, skipped as nat)[0].fields);
    LogLine { message: "Request/Response Log Filtering Active", fields }
}

/// Tells of a route, and whether its requests are logged.
fn report_route(resolved: &ResolvedFilter, url: &String, route: &Route) -> (line: LogLine)
    ensures
        line@ == route_line(resolved@, url@, *route),
{
    let segments = Segment::parse_path(route.path.as_str());
    let status = resolved.classify(route.method, segments.as_slice());
    let mut route_url = url.clone();
    route_url.append(route.uri.as_str());
    let overlaps = status.overlaps_field();
    let mut fields: Vec<Field> = Vec::new();
    fields.push(("method", FieldValue::from(route.method.as_str())));
    fields.push(("url", FieldValue::Str(route_url)));
    fields.push(("path", text_field(&route.uri)));
    fields.push(("content-type", optional_field(&route.format)));
    fields.push(("route", optional_field(&route.name)));
    fields.push(("rank", FieldValue::I64(route.rank as i64)));
    fields.push(("auto_log", FieldValue::from(status.label())));
    fields.push(("auto_log_overlaps", optional_field(&overlaps)));
    assert(fields_of(fields@) =~= route_line(resolved@, url@, *route).fields);
    LogLine { message: "Route Registered", fields }
}

/// Tells of an error catcher.
fn report_catcher(url: &String, catcher: &Catcher) -> (line: LogLine)
    ensures
        line@ == catcher_line(url@, *catcher),
{
    let mut catcher_url = url.clone();
    catcher_url.append(catcher.base.as_str());
    let mut fields: Vec<Field> = Vec::new();
    fields.push(("url", FieldValue::Str(catcher_url)));
    fields.push(("path", text_field(&catcher.base)));
    fields.push(
        (
            "code",
            match catcher.code {
                Some(code) => FieldValue::U64(code as u64),
                None => FieldValue::Null,
            },
        ),
    );
    fields.push(("route", optional_field(&catcher.name)));
    assert(fields_of(fields@) =~= catcher_line(url@, *catcher).fields);
    LogLine { message: "Catcher Registered", fields }
}

/// Tells where the server listens.
fn report_accepting(config: &LaunchConfig, url: &String) -> (line: LogLine)
    requires
        url@ == server_url(*config),
    ensures
        line@ == accepting_line(*config),
{
    let mut fields: Vec<Field> = Vec::new();
    fields.push(("url", text_field(url)));
    fields.push(("host", text_field(&config.address)));
    fields.push(("port", FieldValue::U64(config.port as u64)));
    assert(fields_of(fields@) =~= accepting_line(*config).fields);
    LogLine { message: "Accepting Connections", fields }
}

impl<L> Slogger<L> {
    /// The lines to write to the root logger when the server is launched: its configuration,
    /// how many routes are listed where filtering is configured, each route with its
    /// auto-logging status, each error catcher, and where the server listens.
    pub fn on_liftoff(
        &self,
        resolved: &ResolvedFilter,
        config: &LaunchConfig,
        routes: &[Route],
        catchers: &[Catcher],
    ) -> (lines: Vec<LogLine>)
        ensures
            lines_of(lines@) == launch_report(
                self.filter_show@.len(),
                self.filter_skip@.len(),
                resolved@,
                *config,
                routes@,
                catchers@,
            ),
    {
        let url = url_from_rocket_config(config);
        let mut lines: Vec<LogLine> = Vec::new();
        lines.push(report_config(config, &url));
        let ghost mut expected = seq![launched_line(*config)];
        assert(lines_of(lines@) =~= expected);
        if self.filter_show.len() > 0 || self.filter_skip.len() > 0 {
            let line = report_filtering(self.filter_show.len(), self.filter_skip.len());
            let ghost before = lines@;
            lines.push(line);
            assert(lines_of(lines@) =~= lines_of(before) + seq![line@]);
        }
        proof {
            expected =
            expected + filtering_lines(self.filter_show@.len(), self.filter_skip@.len());
            assert(lines_of(lines@) =~= expected);
        }
        let ghost route_lines = routes@.map_values(
            |route: Route| route_line(resolved@, server_url(*config), route),
        );
        let mut index: usize = 0;
        while index < routes.len()
            invariant
                index <= routes.len(),
                url@ == server_url(*config),
                route_lines == routes@.map_values(
                    |route: Route| route_line(resolved@, server_url(*config), route),
                ),
                lines_of(lines@) == expected + route_lines.take(index as int),
            decreases routes.len() - index,
        {
            let line = report_route(resolved, &url, &routes[index]);
            let ghost before = lines@;
            lines.push(line);
            assert(lines_of(lines@) =~= lines_of(before).push(line@));
            assert(route_lines.take(index + 1) =~= route_lines.take(index as int).push(line@));
            index = index + 1;
        }
        proof {
            assert(route_lines.take(index as int) =~= route_lines);
            expected = expected + route_lines;
        }
        let ghost catcher_lines = catchers@.map_values(
            |catcher: Catcher| catcher_line(server_url(*config), catcher),
        );
        let mut index: usize = 0;
        while index < catchers.len()
            invariant
                index <= catchers.len(),
                url@ == server_url(*config),
                catcher_lines == catchers@.map_values(
                    |catcher: Catcher| catcher_line(server_url(*config), catcher),
                ),
                lines_of(lines@) == expected + catcher_lines.take(index as int),
            decreases catchers.len() - index,
        {
            let line = report_catcher(&url, &catchers[index]);
            let ghost before = lines@;
            lines.push(line);
            assert(lines_of(lines@) =~= lines_of(before).push(line@));
            assert(catcher_lines.take(index + 1) =~= catcher_lines.take(index as int).push(line@));
            index = index + 1;
        }
        proof {
            assert(catcher_lines.take(index as int) =~= catcher_lines);
        }
        let line = report_accepting(config, &url);
        let ghost before = lines@;
        lines.push(line);
        assert(lines_of(lines@) =~= lines_of(before) + seq![line@]);
        lines
    }
}

/// The decision whether a request is logged, cached on the request so that
/// the request line and the response line always agree.
#[derive(Clone, Copy, Debug, PartialEq, Eq, Structural)]
pub struct LogDecision(pub bool);

/// The decision that stays cached when another one is offered: the first.
pub open spec fn kept_decision(cached: Option<LogDecision>, offered: LogDecision) -> LogDecision {
    match cached {
        Some(decision) => decision,
        None => offered,
    }
}

impl LogDecision {
    /// Caches this decision, or returns the one already cached.
    pub fn attach_on(self, cached: &mut Option<LogDecision>) -> (kept: LogDecision)
        ensures
            kept == kept_decision(*old(cached), self),
            *final(cached) == Some(kept),
    {
        match *cached {
            Some(decision) => decision,
            None => {
                *cached = Some(self);
                self
            },
        }
    }
}

/// What is cached on a request between its request line and its response line.
#[derive(Clone, Copy, Debug)]
pub struct RequestState {
    pub decision: Option<LogDecision>,
    pub transaction: Option<RequestTransaction>,
}

/// How the cached transaction may change: one that is there stays, and one is begun only where
/// transactions are on, in the time zone that they are told in.
pub open spec fn transaction_step(
    before: Option<RequestTransaction>,
    after: Option<RequestTransaction>,
    transactions: Option<TimeZone>,
) -> bool {
    match before {
        Some(_) => after == before,
        None => after matches Some(begun) ==> transactions matches Some(zone) && begun.is_fresh(
            zone,
        ),
    }
}

impl RequestState {
    /// The state of a request that has just come in: nothing is cached.
    pub fn new() -> (state: RequestState)
        ensures
            state.decision is None,
            state.transaction is None,
    {
        RequestState { decision: None, transaction: None }
    }

    /// Whether the response to a request in this state is logged: as was decided for the
    /// request, and where nothing was decided, it is.
    pub open spec fn response_is_logged(self) -> bool {
        kept_decision(self.decision, LogDecision(true)).0
    }

    /// The transaction of the request, where transactions are on.
    fn current_transaction(&mut self, transactions: Option<TimeZone>) -> (current: Option<
        RequestTransaction,
    >)
        ensures
            final(self).decision == old(self).decision,
            transaction_step(old(self).transaction, final(self).transaction, transactions),
            match transactions {
                Some(_) => current is Some && final(self).transaction == current,
                None => current is None && final(self).transaction == old(self).transaction,
            },
    {
        match transactions {
            Some(zone) => Some(RequestTransaction::get_or_init(&mut self.transaction, zone)),
            None => None,
        }
    }
}

/// The line that tells of a request. Its fields are those of its logger.
pub open spec fn request_line() -> LogLineView {
    LogLineView { message: "Request"@, fields: Seq::empty() }
}

/// The value of a body size that may be unknown.
pub open spec fn size_value(size: Option<usize>) -> FieldValueView {
    match size {
        Some(size) => FieldValueView::U64(size as u64),
        None => FieldValueView::Null,
    }
}

/// The line that tells of a response: beside the fields of its logger, the size of its body.
pub open spec fn response_line(size: Option<usize>) -> LogLineView {
    LogLineView { message: "Response"@, fields: seq![("size"@, size_value(size))] }
}

/// The line that tells of a request.
pub fn new_request_line() -> (line: LogLine)
    ensures
        line@ == request_line(),
{
    let fields: Vec<Field> = Vec::new();
    assert(fields_of(fields@) =~= Seq::empty());
    LogLine { message: "Request", fields }
}

/// A header of a response: its name and its value.
pub struct Header {
    pub name: &'static str,
    pub value: String,
}

/// What is left to do for a logged response.
pub struct ResponseFinish {
    /// The header to set on the response, where it is asked for.
    pub header: Option<Header>,
    /// The fields to put on the logger, where request code has set any.
    pub layer: Option<Vec<Field>>,
    /// The line to write.
    pub line: LogLine,
}

impl<L> Slogger<L> {
    /// Takes up a request, before it is routed: decides whether it is logged, caches the
    /// decision, and gives the logger and the fields for its request line. `None` where it is
    /// not logged: then no transaction is begun either.
    pub fn begin_request(
        &self,
        resolved: &ResolvedFilter,
        state: &mut RequestState,
        request: &RequestDetails,
        transactions: Option<TimeZone>,
    ) -> (enriched: Option<Enriched<'_, L>>)
        ensures
            ({
                let logged = resolved@.logs(request.method, request_segments(request.path@));
                &&& enriched is Some <==> logged
                &&& final(state).decision == Some(
                    kept_decision(old(state).decision, LogDecision(logged)),
                )
                &&& transaction_step(
                    old(state).transaction,
                    final(state).transaction,
                    transactions,
                )
                &&& !logged || transactions is None ==> final(state).transaction == old(
                    state,
                ).transaction
                &&& logged && transactions is Some ==> final(state).transaction is Some
                &&& enriched matches Some(enriched) ==> {
                    &&& *enriched.logger == self.logger
                    &&& fields_of(enriched.fields@) == request_fields(
                        *request,
                        if transactions is Some {
                            final(state).transaction
                        } else {
                            None
                        },
                    )
                }
            }),
    {
        let should_log = resolved.filter_decision(request);
        let _ = LogDecision(should_log).attach_on(&mut state.decision);
        if !should_log {
            return None;
        }
        let transaction = state.current_transaction(transactions);
        Some(self.get_for_request(request, transaction.as_ref()))
    }

    /// Takes up the response to a request: recalls the decision that was cached for the request,
    /// and gives the logger and the fields for its response line. `None` where the request is
    /// not logged. This reads the clock where transactions are on.
    pub fn begin_response(
        &self,
        state: &mut RequestState,
        request: &RequestDetails,
        response: &ResponseDetails,
        transactions: Option<TimeZone>,
    ) -> (enriched: Option<Enriched<'_, L>>)
        ensures
            ({
                let logged = old(state).response_is_logged();
                &&& enriched is Some <==> logged
                &&& final(state).decision == Some(LogDecision(logged))
                &&& transaction_step(
                    old(state).transaction,
                    final(state).transaction,
                    transactions,
                )
                &&& !logged || transactions is None ==> final(state).transaction == old(
                    state,
                ).transaction
                &&& logged && transactions is Some ==> final(state).transaction is Some
                &&& enriched matches Some(enriched) ==> {
                    &&& *enriched.logger == self.logger
                    &&& if transactions is Some {
                        exists|now: TimestampView| #[trigger]
                            now.is_clock_reading() && now.offset == 0 && now.was_read(TimeZone::Utc)
                                && fields_of(enriched.fields@) == response_fields(
                                *request,
                                *response,
                                Some(
                                    (
                                        final(state).transaction->0,
                                        counted(
                                            nanoseconds_from(
                                                final(state).transaction->0.received@,
                                                now,
                                            ),
                                        ),
                                    ),
                                ),
                            )
                    } else {
                        fields_of(enriched.fields@) == response_fields(*request, *response, None)
                    }
                }
            }),
    {
        let decision = LogDecision(true).attach_on(&mut state.decision);
        if !decision.0 {
            return None;
        }
        let transaction = state.current_transaction(transactions);
        Some(self.get_for_response(request, response, transaction.as_ref()))
    }

    /// Finishes a response, once its hooks have run and the size of its body is known:
    /// gives the header to set, the fields that request code accumulated, and the line to write.
    /// `None` where the request is not logged: then the response gets no header either.
    ///
    /// The header carries the id of the transaction that is cached on the request, so it is the
    /// id that the lines carry.
    pub fn finish_response(
        &self,
        state: &mut RequestState,
        snapshot: ResponseLogSnapshot,
        body_size: Option<usize>,
        zone: TimeZone,
    ) -> (finish: Option<ResponseFinish>)
        ensures
            ({
                let logged = old(state).response_is_logged();
                &&& finish is Some <==> logged
                &&& final(state).decision == old(state).decision
                &&& transaction_step(
                    old(state).transaction,
                    final(state).transaction,
                    Some(zone),
                )
                &&& !logged || !self.emit_request_id_header ==> final(state).transaction == old(
                    state,
                ).transaction
                &&& finish matches Some(finish) ==> {
                    &&& if self.emit_request_id_header {
                        &&& final(state).transaction is Some
                        &&& finish.header matches Some(header)
                        &&& header.name@ == "X-Request-Id"@
                        &&& header.value@ == uuid_text(final(state).transaction->0.id)
                    } else {
                        finish.header is None
                    }
                    &&& finish.layer is None <==> snapshot@.len() == 0
                    &&& finish.layer matches Some(fields) ==> fields_of(fields@) == snapshot@
                    &&& finish.line@ == response_line(body_size)
                }
            }),
    {
        if let Some(decision) = state.decision {
            if !decision.0 {
                return None;
            }
        }
        let header = if self.emit_request_id_header {
            let transaction = RequestTransaction::get_or_init(&mut state.transaction, zone);
            Some(Header { name: "X-Request-Id", value: transaction.id_as_string() })
        } else {
            None
        };
        // An empty bag adds no layer.
        let layer = if snapshot.is_empty() {
            None
        } else {
            Some(snapshot.0)
        };
        let mut fields: Vec<Field> = Vec::new();
        fields.push(
            (
                "size",
                match body_size {
                    Some(size) => FieldValue::U64(size as u64),
                    None => FieldValue::Null,
                },
            ),
        );
        assert(fields_of(fields@) =~= response_line(body_size).fields);
        Some(ResponseFinish { header, layer, line: LogLine { message: "Response", fields } })
    }
}

/// The hooks of a line, being run one after the other: each gets the logger as the hooks before
/// it left it.
pub struct HandlerRun<L> {
    /// The logger that the next hook gets, and the line in the end.
    pub logger: L,
    /// The hook to run next.
    pub next: usize,
    /// How many hooks are registered.
    pub count: usize,
}

/// The logger after a hook has replied: the one that it gave, or else the one that it got.
pub open spec fn logger_after_reply<L>(logger: L, reply: Option<L>) -> L {
    match reply {
        Some(replacement) => replacement,
        None => logger,
    }
}

/// The logger after hooks have given these replies, in their order.
pub open spec fn logger_after<L>(logger: L, replies: Seq<Option<L>>) -> L
    decreases replies.len(),
{
    if replies.len() == 0 {
        logger
    } else {
        logger_after_reply(logger_after(logger, replies.drop_last()), replies.last())
    }
}

impl<L> HandlerRun<L> {
    /// Whether this run began with `logger` and `count` hooks, and has had these replies.
    pub open spec fn has_had(self, logger: L, count: nat, replies: Seq<Option<L>>) -> bool {
        &&& self.logger == logger_after(logger, replies)
        &&& self.next == replies.len()
        &&& self.count == count
        &&& self.next <= self.count
    }

    /// Begins a run of `count` hooks with `logger`.
    pub fn new(logger: L, count: usize) -> (run: HandlerRun<L>)
        ensures
            run.logger == logger,
            run.next == 0,
            run.count == count,
            run.has_had(logger, count as nat, Seq::empty()),
    {
        HandlerRun { logger, next: 0, count }
    }

    /// The hook to run next: `None` once all have run.
    pub fn pending(&self) -> (hook: Option<usize>)
        ensures
            hook == if self.next < self.count {
                Some(self.next)
            } else {
                None
            },
    {
        if self.next < self.count {
            Some(self.next)
        } else {
            None
        }
    }

    /// Takes the reply of the hook that was run: `Some` replaces the logger, `None` leaves it.
    pub fn reply(&mut self, reply: Option<L>)
        requires
            old(self).next < old(self).count,
        ensures
            final(self).logger == logger_after_reply(old(self).logger, reply),
            final(self).next == old(self).next + 1,
            final(self).count == old(self).count,
    {
        if let Some(replacement) = reply {
            self.logger = replacement;
        }
        self.next = self.next + 1;
    }
}

/// Hooks run in the order of their registration: after so many replies, the next hook is the one
/// with that number, and its reply takes the run one further.
pub proof fn law_hooks_run_in_order<L>(
    before: HandlerRun<L>,
    after: HandlerRun<L>,
    logger: L,
    count: nat,
    replies: Seq<Option<L>>,
    reply: Option<L>,
)
    requires
        before.has_had(logger, count, replies),
        before.next < before.count,
        after.logger == logger_after_reply(before.logger, reply),
        after.next == before.next + 1,
        after.count == before.count,
    ensures
        before.next == replies.len(),
        after.has_had(logger, count, replies.push(reply)),
{
    assert(replies.push(reply).drop_last() =~= replies);
}

/// The last logger that a hook gave is the one that the line gets; hooks that gave none leave
/// what the hooks before them gave.
pub proof fn law_last_given_logger_is_used<L>(
    logger: L,
    replies: Seq<Option<L>>,
    given: L,
    declined: nat,
)
    ensures
        logger_after(
            logger,
            replies.push(Some(given)) + Seq::new(declined, |i: int| None::<L>),
        ) == given,
        logger_after(logger, Seq::new(declined, |i: int| None::<L>)) == logger,
    decreases declined,
{
    let nones = Seq::new(declined, |i: int| None::<L>);
    let all = replies.push(Some(given)) + nones;
    if declined == 0 {
        assert(all =~= replies.push(Some(given)));
        assert(all.last() == Some(given));
    } else {
        let fewer = (declined - 1) as nat;
        let fewer_nones = Seq::new(fewer, |i: int| None::<L>);
        law_last_given_logger_is_used(logger, replies, given, fewer);
        assert(nones.drop_last() =~= fewer_nones);
        assert(all.drop_last() =~= replies.push(Some(given)) + fewer_nones);
        assert(all.last() == None::<L>);
    }
}

/// A request gives both of its lines or neither: where nothing was cached before, its response is
/// logged exactly when the request is.
pub proof fn law_request_and_response_are_logged_together(
    before: RequestState,
    after: RequestState,
    logged: bool,
)
    requires
        before.decision is None,
        after.decision == Some(kept_decision(before.decision, LogDecision(logged))),
    ensures
        after.response_is_logged() == logged,
{
}

/// A response whose request was never decided on is logged.
pub proof fn law_undecided_response_is_logged(state: RequestState)
    requires
        state.decision is None,
    ensures
        state.response_is_logged(),
{
}

/// Whether the fields carry `id` as the id of their transaction, and no other id.
pub open spec fn carries_id(fields: Seq<FieldView>, id: Seq<char>) -> bool {
    &&& fields.contains(("transaction"@, FieldValueView::Str(id)))
    &&& forall|i: int|
        0 <= i < fields.len() && (#[trigger] fields[i]).0 == "transaction"@ ==> fields[i].1
            == FieldValueView::Str(id)
}

/// The keys of a line that stand beside its transaction id differ from the key of the id.
proof fn lemma_transaction_key_is_its_own()
    ensures
        "uri"@ != "transaction"@,
        "method"@ != "transaction"@,
        "path"@ != "transaction"@,
        "route"@ != "transaction"@,
        "rank"@ != "transaction"@,
        "content-type"@ != "transaction"@,
        "user-agent"@ != "transaction"@,
        "received"@ != "transaction"@,
        "code"@ != "transaction"@,
        "reason"@ != "transaction"@,
        "elapsed_ns"@ != "transaction"@,
{
    reveal_strlit("transaction");
    reveal_strlit("uri");
    reveal_strlit("method");
    reveal_strlit("path");
    reveal_strlit("route");
    reveal_strlit("rank");
    reveal_strlit("content-type");
    reveal_strlit("user-agent");
    reveal_strlit("received");
    reveal_strlit("code");
    reveal_strlit("reason");
    reveal_strlit("elapsed_ns");
    assert("transaction"@.len() == 11);
}

/// A request line carries the id of its transaction, and no other.
proof fn lemma_request_line_carries_id(request: RequestDetails, transaction: RequestTransaction)
    ensures
        carries_id(request_fields(request, Some(transaction)), uuid_text(transaction.id)),
{
    lemma_transaction_key_is_its_own();
    let fields = request_fields(request, Some(transaction));
    let at = fields.len() - 2;
    assert(fields[at] == transaction_fields(transaction)[0]);
}

/// A response line carries the id of its transaction, and no other.
proof fn lemma_response_line_carries_id(
    request: RequestDetails,
    response: ResponseDetails,
    transaction: RequestTransaction,
    elapsed: Option<i64>,
)
    ensures
        carries_id(
            response_fields(request, response, Some((transaction, elapsed))),
            uuid_text(transaction.id),
        ),
{
    lemma_transaction_key_is_its_own();
    let fields = response_fields(request, response, Some((transaction, elapsed)));
    let at = fields.len() - 3;
    assert(fields[at] == transaction_fields(transaction)[0]);
}

/// All lines of a request, and the header of its response, carry one and the same id: the one
/// that was cached when the request was taken up.
pub proof fn law_one_id_for_all_lines_and_the_header(
    request: RequestDetails,
    routed: RequestDetails,
    response: ResponseDetails,
    at_request: RequestState,
    at_response: RequestState,
    at_finish: RequestState,
    elapsed: Option<i64>,
    zone: TimeZone,
)
    requires
        at_request.transaction is Some,
        transaction_step(at_request.transaction, at_response.transaction, Some(zone)),
        transaction_step(at_response.transaction, at_finish.transaction, Some(zone)),
    ensures
        ({
            let id = uuid_text(at_request.transaction->0.id);
            &&& carries_id(request_fields(request, at_request.transaction), id)
            &&& carries_id(
                response_fields(
                    routed,
                    response,
                    Some((at_response.transaction->0, elapsed)),
                ),
                id,
            )
            &&& uuid_text(at_finish.transaction->0.id) == id
        }),
{
    lemma_request_line_carries_id(request, at_request.transaction->0);
    lemma_response_line_carries_id(routed, response, at_response.transaction->0, elapsed);
}

/// Without transactions, no line carries an id.
pub proof fn law_no_id_without_transactions(request: RequestDetails, response: ResponseDetails)
    ensures
        forall|i: int|
            0 <= i < request_fields(request, None).len() ==> (#[trigger] request_fields(
                request,
                None,
            )[i]).0 != "transaction"@,
        forall|i: int|
            0 <= i < response_fields(request, response, None).len() ==> (#[trigger] response_fields(
                request,
                response,
                None,
            )[i]).0 != "transaction"@,
{
    lemma_transaction_key_is_its_own();
}

/// The report of a launch begins with the configuration and ends with where the server listens;
/// in between stands one line for each route, then one for each catcher, and before them one
/// line for the filtering where any route is listed.
pub proof fn law_launch_report_has_its_order(
    shown: nat,
    skipped: nat,
    resolved: ResolvedFilterView,
    config: LaunchConfig,
    routes: Seq<Route>,
    catchers: Seq<Catcher>,
)
    ensures
        ({
            let report = launch_report(shown, skipped, resolved, config, routes, catchers);
            let first_route: int = if shown == 0 && skipped == 0 {
                1
            } else {
                2
            };
            &&& report.len() == first_route + routes.len() + catchers.len() + 1
            &&& report[0] == launched_line(config)
            &&& first_route == 2 ==> seq![report[1]] == filtering_lines(shown, skipped)
            &&& forall|i: int|
                0 <= i < routes.len() ==> report[first_route + i] == #[trigger] route_line(
                    resolved,
                    server_url(config),
                    routes[i],
                )
            &&& forall|i: int|
                0 <= i < catchers.len() ==> report[first_route + routes.len() + i]
                    == #[trigger] catcher_line(server_url(config), catchers[i])
            &&& report.last() == accepting_line(config)
        }),
{
}

/// Where no route is listed, every route is reported as always logged.
pub proof fn law_without_lists_routes_are_reported_as_always_logged(
    resolved: ResolvedFilterView,
    url: Seq<char>,
    route: Route,
)
    requires
        resolved.shown.len() == 0,
        resolved.skipped.len() == 0,
    ensures
        route_line(resolved, url, route).fields[6] == ("auto_log"@, FieldValueView::Str("always"@)),
        route_line(resolved, url, route).fields[7] == ("auto_log_overlaps"@, FieldValueView::Null),
{
}

} // verus!
