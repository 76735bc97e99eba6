//! Structured logging rules for a web server.
//!
//! A [`Slogger`] holds a root logger and decides what is logged: which requests get their
//! automatic request and response lines ([`filter`]), which fields each line carries, what the
//! launch of the server reports ([`fairing`]), the identity of a request ([`transaction`]) and
//! the fields that request code adds to the response line ([`response_log`]). The server itself
//! is spoken of in plain values ([`http`]); writing the lines is left to the caller, and so is
//! the type of the root logger.

pub mod fairing;
pub mod field_laws;
pub mod filter;
pub mod filter_laws;
pub mod from_request;
pub mod http;
pub mod line_laws;
pub mod list_laws;
pub mod path;
pub mod request_laws;
pub mod response_log;
pub mod text;
pub mod text_laws;
pub mod transaction;

pub use response_log::{FieldValue, ResponseLog};

use crate::filter::{keys_of, listed_patterns, route_key, ResolvedFilter, RouteKey, RouteKeyView};
use crate::http::{RequestDetails, ResponseDetails, Route};
use crate::response_log::{fields_of, Field, FieldValueView, FieldView};
use crate::text::{join, joined, texts};
use crate::transaction::{
    counted, nanoseconds_from, rfc3339_text, uuid_text, RequestTransaction, TimeZone, TimestampView,
};
use vstd::prelude::*;

verus! {

/// The value of a text.
pub open spec fn text_value(text: String) -> FieldValueView {
    FieldValueView::Str(text@)
}

/// The value of a text that may be absent: an absent one is an explicit null.
pub open spec fn optional_value(text: Option<String>) -> FieldValueView {
    match text {
        Some(text) => FieldValueView::Str(text@),
        None => FieldValueView::Null,
    }
}

/// The value of a number of nanoseconds that may be absent.
pub open spec fn elapsed_value(elapsed: Option<i64>) -> FieldValueView {
    match elapsed {
        Some(elapsed) => FieldValueView::I64(elapsed),
        None => FieldValueView::Null,
    }
}

/// Makes the value of a text.
pub(crate) fn text_field(text: &String) -> (value: FieldValue)
    ensures
        value@ == text_value(*text),
{
    FieldValue::Str(text.clone())
}

/// Makes the value of a text that may be absent.
pub(crate) fn optional_field(text: &Option<String>) -> (value: FieldValue)
    ensures
        value@ == optional_value(*text),
{
    match text {
        Some(text) => FieldValue::Str(text.clone()),
        None => FieldValue::Null,
    }
}

/// What every line of a request says of it: its method and URI, and of its route, once it has
/// one, the path pattern, the name and the rank.
pub open spec fn detail_fields(request: RequestDetails) -> Seq<FieldView> {
    match request.route {
        Some(route) => seq![
            ("uri"@, text_value(request.uri)),
            ("method"@, FieldValueView::Str(route.method.name())),
            ("path"@, text_value(route.uri)),
            ("route"@, optional_value(route.name)),
            ("rank"@, FieldValueView::I64(route.rank as i64)),
        ],
        None => seq![
            ("uri"@, text_value(request.uri)),
            ("method"@, FieldValueView::Str(request.method.name())),
        ],
    }
}

/// What a transaction adds to the lines of its request.
pub open spec fn transaction_fields(transaction: RequestTransaction) -> Seq<FieldView> {
    seq![
        ("transaction"@, FieldValueView::Str(uuid_text(transaction.id))),
        (
            "received"@,
            FieldValueView::Str(
                rfc3339_text(
                    transaction.received@.seconds,
                    transaction.received@.nanoseconds,
                    transaction.received@.offset,
                ),
            ),
        ),
    ]
}

/// The fields of a request line, in the order in which they are written.
pub open spec fn request_fields(
    request: RequestDetails,
    transaction: Option<RequestTransaction>,
) -> Seq<FieldView> {
    detail_fields(request) + seq![
        ("content-type"@, optional_value(request.content_type)),
        ("user-agent"@, FieldValueView::Str(joined(texts(request.user_agents@), "; "@))),
    ] + match transaction {
        Some(transaction) => transaction_fields(transaction),
        None => Seq::empty(),
    }
}

/// The fields of a response line, in the order in which they are written: a transaction comes
/// with the nanoseconds since it began.
pub open spec fn response_fields(
    request: RequestDetails,
    response: ResponseDetails,
    transaction: Option<(RequestTransaction, Option<i64>)>,
) -> Seq<FieldView> {
    detail_fields(request) + seq![
        ("code"@, FieldValueView::U64(response.code as u64)),
        ("reason"@, optional_value(response.reason)),
        ("content-type"@, optional_value(response.content_type)),
    ] + match transaction {
        Some((transaction, elapsed)) => transaction_fields(transaction).push(
            ("elapsed_ns"@, elapsed_value(elapsed)),
        ),
        None => Seq::empty(),
    }
}

/// Lists what every line of a request says of it.
fn new_fields_with_request_details(request: &RequestDetails) -> (fields: Vec<Field>)
    ensures
        fields_of(fields@) == detail_fields(*request),
{
    let mut fields: Vec<Field> = Vec::new();
    fields.push(("uri", text_field(&request.uri)));
    match &request.route {
        Some(route) => {
            fields.push(("method", FieldValue::from(route.method.as_str())));
            fields.push(("path", text_field(&route.uri)));
            fields.push(("route", optional_field(&route.name)));
            fields.push(("rank", FieldValue::I64(route.rank as i64)));
        },
        None => {
            fields.push(("method", FieldValue::from(request.method.as_str())));
        },
    }
    assert(fields_of(fields@) =~= detail_fields(*request));
    fields
}

/// Appends what a transaction adds to the lines of its request.
fn push_transaction(fields: &mut Vec<Field>, transaction: &RequestTransaction)
    ensures
        fields_of(final(fields)@) == fields_of(old(fields)@) + transaction_fields(*transaction),
{
    fields.push(("transaction", FieldValue::Str(transaction.id_as_string())));
    fields.push(("received", FieldValue::Str(transaction.received_as_string())));
    assert(fields_of(fields@) =~= fields_of(old(fields)@) + transaction_fields(*transaction));
}

/// A logger and the fields to put on it: the newest first, as they are written.
pub struct Enriched<'a, L> {
    pub logger: &'a L,
    pub fields: Vec<Field>,
}

/// The logging rules of a server, and the root logger that its lines go to.
///
/// Construct one from a logger with [`from_logger`](Self::from_logger), then configure it with
/// the builder methods.
pub struct Slogger<L> {
    /// The root logger.
    pub logger: L,
    /// The routes whose requests alone are logged, where there are any.
    pub filter_show: Vec<RouteKey>,
    /// The routes whose requests are not logged.
    pub filter_skip: Vec<RouteKey>,
    /// Whether responses carry the id of their request in a header.
    pub emit_request_id_header: bool,
}

/// The keys of the routes.
pub open spec fn route_keys(routes: Seq<Route>) -> Seq<RouteKeyView> {
    routes.map_values(|route: Route| route_key(route))
}

/// Appends the keys of the routes.
fn extend_keys(keys: &mut Vec<RouteKey>, routes: Vec<Route>)
    ensures
        keys_of(final(keys)@) == keys_of(old(keys)@) + route_keys(routes@),
{
    let mut index: usize = 0;
    while index < routes.len()
        invariant
            index <= routes.len(),
            keys_of(keys@) == keys_of(old(keys)@) + route_keys(routes@).take(index as int),
        decreases routes.len() - index,
    {
        let ghost before = keys@;
        let key = RouteKey::from_route(&routes[index]);
        assert(route_keys(routes@)[index as int] == key@);
        keys.push(key);
        assert(keys_of(keys@) =~= keys_of(before).push(key@));
        assert(route_keys(routes@).take(index + 1) =~= route_keys(routes@).take(index as int).push(
            key@,
        ));
        index = index + 1;
    }
    assert(route_keys(routes@).take(routes@.len() as int) =~= route_keys(routes@));
}

impl<L> Slogger<L> {
    /// Wrap an existing logger: with no lists, every request is logged, and responses are left
    /// as they are.
    pub fn from_logger(logger: L) -> (slogger: Slogger<L>)
        ensures
            slogger.logger == logger,
            slogger.filter_show@.len() == 0,
            slogger.filter_skip@.len() == 0,
            !slogger.emit_request_id_header,
    {
        Slogger {
            logger,
            filter_show: Vec::new(),
            filter_skip: Vec::new(),
            emit_request_id_header: false,
        }
    }

    /// The root logger, without any per-request fields. Use this for log lines
    /// that are not tied to a single request, such as application startup.
    pub fn get(&self) -> (logger: &L)
        ensures
            *logger == self.logger,
    {
        &self.logger
    }

    /// The root logger enriched with this request's details: method, URI, matched
    /// route, user agent, and content type, plus the transaction id and receive
    /// time where there is a transaction.
    pub fn get_for_request(
        &self,
        request: &RequestDetails,
        transaction: Option<&RequestTransaction>,
    ) -> (enriched: Enriched<'_, L>)
        ensures
            *enriched.logger == self.logger,
            fields_of(enriched.fields@) == request_fields(
                *request,
                match transaction {
                    Some(transaction) => Some(*transaction),
                    None => None,
                },
            ),
    {
        let mut fields = new_fields_with_request_details(request);
        fields.push(("content-type", optional_field(&request.content_type)));
        fields.push(("user-agent", FieldValue::Str(join(&request.user_agents, "; "))));
        assert(fields_of(fields@) =~= request_fields(*request, None));
        if let Some(transaction) = transaction {
            push_transaction(&mut fields, transaction);
        }
        assert(fields_of(fields@) =~= request_fields(
            *request,
            match transaction {
                Some(transaction) => Some(*transaction),
                None => None,
            },
        ));
        Enriched { logger: &self.logger, fields }
    }

    /// The root logger enriched with the response's details, for a transaction that began so
    /// many nanoseconds ago: status code and reason, content type, the request details, and the
    /// transaction id, receive time and elapsed time where there is a transaction.
    pub fn get_for_response_after(
        &self,
        request: &RequestDetails,
        response: &ResponseDetails,
        transaction: Option<(&RequestTransaction, Option<i64>)>,
    ) -> (enriched: Enriched<'_, L>)
        ensures
            *enriched.logger == self.logger,
            fields_of(enriched.fields@) == response_fields(
                *request,
                *response,
                match transaction {
                    Some((transaction, elapsed)) => Some((*transaction, elapsed)),
                    None => None,
                },
            ),
    {
        let mut fields = new_fields_with_request_details(request);
        fields.push(("code", FieldValue::U64(response.code as u64)));
        fields.push(("reason", optional_field(&response.reason)));
        fields.push(("content-type", optional_field(&response.content_type)));
        assert(fields_of(fields@) =~= response_fields(*request, *response, None));
        if let Some((transaction, elapsed)) = transaction {
            push_transaction(&mut fields, transaction);
            let ghost before = fields@;
            fields.push(
                (
                    "elapsed_ns",
                    match elapsed {
                        Some(elapsed) => FieldValue::I64(elapsed),
                        None => FieldValue::Null,
                    },
                ),
            );
            assert(fields_of(fields@) =~= fields_of(before).push(
                ("elapsed_ns"@, elapsed_value(elapsed)),
            ));
        }
        assert(fields_of(fields@) =~= response_fields(
            *request,
            *response,
            match transaction {
                Some((transaction, elapsed)) => Some((*transaction, elapsed)),
                None => None,
            },
        ));
        Enriched { logger: &self.logger, fields }
    }

    /// The root logger enriched with the response's details: status code and reason,
    /// content type, and the request details again, plus the transaction id, receive time and
    /// elapsed request-to-response time where there is a transaction. This reads the clock.
    pub fn get_for_response(
        &self,
        request: &RequestDetails,
        response: &ResponseDetails,
        transaction: Option<&RequestTransaction>,
    ) -> (enriched: Enriched<'_, L>)
        ensures
            *enriched.logger == self.logger,
            match transaction {
                Some(transaction) => exists|now: TimestampView| #[trigger]
                    now.is_clock_reading() && now.offset == 0 && now.was_read(TimeZone::Utc)
                        && fields_of(enriched.fields@) == response_fields(
                        *request,
                        *response,
                        Some(
                            (
                                *transaction,
                                counted(nanoseconds_from(transaction.received@, now)),
                            ),
                        ),
                    ),
                None => fields_of(enriched.fields@) == response_fields(*request, *response, None),
            },
    {
        match transaction {
            Some(transaction) => {
                let elapsed = transaction.elapsed_ns();
                self.get_for_response_after(request, response, Some((transaction, elapsed)))
            },
            None => self.get_for_response_after(request, response, None),
        }
    }

    /// Skip the automatic request/response logs for the given routes. Combine with
    /// `show_reqres_logs`: a skipped route wins over a shown one on overlap.
    ///
    /// Matching is by path pattern and can be leaky: a route whose pattern
    /// overlaps another's may be filtered for only some requests. Such routes
    /// report `auto_log: conditional` on their `Route Registered` launch line.
    pub fn skip_reqres_logs(self, routes: Vec<Route>) -> (slogger: Slogger<L>)
        ensures
            slogger.logger == self.logger,
            slogger.filter_show == self.filter_show,
            keys_of(slogger.filter_skip@) == keys_of(self.filter_skip@) + route_keys(routes@),
            slogger.emit_request_id_header == self.emit_request_id_header,
    {
        let mut slogger = self;
        extend_keys(&mut slogger.filter_skip, routes);
        slogger
    }

    /// Show the automatic request/response logs only for the given routes. When this is set,
    /// routes not listed are not logged. Leaving it unset (the default) logs every route.
    ///
    /// Matching is by path pattern and can be leaky: a route whose pattern
    /// overlaps another's may be logged for only some requests. Such routes
    /// report `auto_log: conditional` on their `Route Registered` launch line.
    pub fn show_reqres_logs(self, routes: Vec<Route>) -> (slogger: Slogger<L>)
        ensures
            slogger.logger == self.logger,
            keys_of(slogger.filter_show@) == keys_of(self.filter_show@) + route_keys(routes@),
            slogger.filter_skip == self.filter_skip,
            slogger.emit_request_id_header == self.emit_request_id_header,
    {
        let mut slogger = self;
        extend_keys(&mut slogger.filter_show, routes);
        slogger
    }

    /// Set an `X-Request-Id` response header to the request's transaction id.
    /// Off by default: a logging fairing should not alter responses unless
    /// asked.
    pub fn with_request_id_header(self) -> (slogger: Slogger<L>)
        ensures
            slogger.logger == self.logger,
            slogger.filter_show == self.filter_show,
            slogger.filter_skip == self.filter_skip,
            slogger.emit_request_id_header,
    {
        let mut slogger = self;
        slogger.emit_request_id_header = true;
        slogger
    }

    /// Resolve the listed routes to the path patterns of the mounted `routes`. The route table
    /// does not change once the server is launched, so neither does what this returns.
    pub fn resolved_filter(&self, routes: &[Route]) -> (resolved: ResolvedFilter)
        ensures
            resolved@.shown == listed_patterns(routes@, keys_of(self.filter_show@)),
            resolved@.skipped == listed_patterns(routes@, keys_of(self.filter_skip@)),
    {
        ResolvedFilter::resolve(routes, self.filter_show.as_slice(), self.filter_skip.as_slice())
    }
}

impl<L> From<L> for Slogger<L> {
    fn from(logger: L) -> (slogger: Slogger<L>)
        ensures
            slogger.logger == logger,
            slogger.filter_show@.len() == 0,
            slogger.filter_skip@.len() == 0,
            !slogger.emit_request_id_header,
    {
        Slogger::from_logger(logger)
    }
}

// Two empty lists need not be the same value, so that no one value is what `from` returns: its
// own `ensures` states the result.
impl<L> vstd::std_specs::convert::FromSpecImpl<L> for Slogger<L> {
    open spec fn obeys_from_spec() -> bool {
        false
    }

    open spec fn from_spec(logger: L) -> Slogger<L> {
        choose|slogger: Slogger<L>| slogger.logger == logger
    }
}

impl<L: Clone> From<&L> for Slogger<L> {
    fn from(logger: &L) -> (slogger: Slogger<L>)
        ensures
            cloned(*logger, slogger.logger),
            slogger.filter_show@.len() == 0,
            slogger.filter_skip@.len() == 0,
            !slogger.emit_request_id_header,
    {
        Slogger::from_logger(logger.clone())
    }
}

impl<L: Clone> vstd::std_specs::convert::FromSpecImpl<&L> for Slogger<L> {
    open spec fn obeys_from_spec() -> bool {
        false
    }

    open spec fn from_spec(logger: &L) -> Slogger<L> {
        choose|slogger: Slogger<L>| cloned(*logger, slogger.logger)
    }
}

/// Copies the keys.
fn copy_keys(keys: &Vec<RouteKey>) -> (copy: Vec<RouteKey>)
    ensures
        copy@ == keys@,
{
    let copy = keys.clone();
    assert(copy@ =~= keys@);
    copy
}

impl<L: Clone> Clone for Slogger<L> {
    fn clone(&self) -> (copy: Slogger<L>)
        ensures
            cloned(self.logger, copy.logger),
            copy.filter_show@ == self.filter_show@,
            copy.filter_skip@ == self.filter_skip@,
            copy.emit_request_id_header == self.emit_request_id_header,
    {
        Slogger {
            logger: self.logger.clone(),
            filter_show: copy_keys(&self.filter_show),
            filter_skip: copy_keys(&self.filter_skip),
            emit_request_id_header: self.emit_request_id_header,
        }
    }
}

impl<L> std::ops::Deref for Slogger<L> {
    type Target = L;

    fn deref(&self) -> (logger: &L)
        ensures
            *logger == self.logger,
    {
        &self.logger
    }
}

} // verus!
