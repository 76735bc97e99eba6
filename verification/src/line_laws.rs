//! What the fields of the log lines tell, said of the calls that make them.

use crate::fairing::{
    accepting_line, catcher_line, filtering_lines, launch_report, launched_line, lines_of,
    overlaps_value, route_line, server_url, temp_dir_path_from_rocket_config,
    url_from_rocket_config, LogLine,
};
use crate::field_laws::{is_number, is_optional_text, is_text};
use crate::filter::{keys_of, parsed, route_key, AutoLog, AutoLogView, ResolvedFilter, Segment};
use crate::filter_laws::{
    law_always_is_always, law_never_is_never, law_skipped_route_is_never_logged, path_fits,
    resolution, trailing_ends,
};
use crate::http::{Catcher, LaunchConfig, Method, RequestDetails, ResponseDetails, Route};
use crate::list_laws::{same_handle, same_optional};
use crate::response_log::{fields_of, Field, FieldValue, FieldValueView};
use crate::text::{decimal, joined, texts};
use crate::transaction::{
    counted, nanoseconds_from, rfc3339_text, uuid_text, RequestTransaction, TimeZone, TimestampView,
};
use crate::{detail_fields, request_fields, response_fields, route_keys, Enriched, Slogger};
use vstd::prelude::*;

verus! {

/// The keys of the fields, in their order.
pub open spec fn keys(fields: Seq<Field>) -> Seq<Seq<char>> {
    fields.map_values(|field: Field| field.0@)
}

/// What a field says is what its views say.
proof fn lemma_fields(fields: Seq<Field>)
    ensures
        fields_of(fields).len() == fields.len(),
        keys(fields).len() == fields.len(),
        forall|i: int|
            0 <= i < fields.len() ==> (#[trigger] fields_of(fields)[i]).0 == fields[i].0@
                && fields_of(fields)[i].1 == fields[i].1@ && keys(fields)[i] == fields[i].0@,
{
}

/// Each method has the name that requests carry.
pub proof fn law_methods_have_their_names(method: Method, name: &'static str)
    requires
        call_ensures(Method::as_str, (method,), name),
    ensures
        method is Get ==> name@ == "GET"@,
        method is Put ==> name@ == "PUT"@,
        method is Post ==> name@ == "POST"@,
        method is Delete ==> name@ == "DELETE"@,
        method is Options ==> name@ == "OPTIONS"@,
        method is Head ==> name@ == "HEAD"@,
        method is Trace ==> name@ == "TRACE"@,
        method is Connect ==> name@ == "CONNECT"@,
        method is Patch ==> name@ == "PATCH"@,
{
}

/// The names of the methods tell them apart.
pub proof fn law_method_names_differ(a: Method, b: Method, x: &'static str, y: &'static str)
    requires
        call_ensures(Method::as_str, (a,), x),
        call_ensures(Method::as_str, (b,), y),
    ensures
        x@ == y@ <==> a == b,
{
    reveal_strlit("GET");
    reveal_strlit("PUT");
    reveal_strlit("POST");
    reveal_strlit("DELETE");
    reveal_strlit("OPTIONS");
    reveal_strlit("HEAD");
    reveal_strlit("TRACE");
    reveal_strlit("CONNECT");
    reveal_strlit("PATCH");
    let first = |m: Method| m.name()[0];
    let second = |m: Method| m.name()[1];
    let last = |m: Method| m.name()[m.name().len() - 1];
    if x@ == y@ {
        assert(x@.len() == y@.len());
        assert(first(a) == first(b) && second(a) == second(b) && last(a) == last(b));
    }
}

/// How many fields tell of a request: five once it is routed, two before.
pub open spec fn detail_count(request: RequestDetails) -> int {
    if request.route is Some {
        5
    } else {
        2
    }
}

/// Whether the first fields tell the request: its URI, its method, and of its route the pattern,
/// the name and the rank. A routed request goes by the method of its route.
pub open spec fn tells_request(fields: Seq<Field>, request: RequestDetails) -> bool {
    &&& fields[0].0@ == "uri"@
    &&& is_text(fields[0].1, request.uri@)
    &&& fields[1].0@ == "method"@
    &&& match request.route {
        Some(route) => {
            &&& is_text(fields[1].1, route.method.name())
            &&& fields[2].0@ == "path"@
            &&& is_text(fields[2].1, route.uri@)
            &&& fields[3].0@ == "route"@
            &&& is_optional_text(fields[3].1, route.name)
            &&& fields[4].0@ == "rank"@
            &&& is_number(fields[4].1, route.rank as int)
        },
        None => is_text(fields[1].1, request.method.name()),
    }
}

/// Whether the fields from `at` on tell the response: its code, its reason and its content type.
pub open spec fn tells_response(fields: Seq<Field>, at: int, response: ResponseDetails) -> bool {
    &&& fields[at].0@ == "code"@
    &&& is_number(fields[at].1, response.code as int)
    &&& fields[at + 1].0@ == "reason"@
    &&& is_optional_text(fields[at + 1].1, response.reason)
    &&& fields[at + 2].0@ == "content-type"@
    &&& is_optional_text(fields[at + 2].1, response.content_type)
}

/// Whether the fields from `at` on tell the transaction: its id and its receive time.
pub open spec fn tells_transaction(
    fields: Seq<Field>,
    at: int,
    transaction: RequestTransaction,
) -> bool {
    &&& fields[at].0@ == "transaction"@
    &&& is_text(fields[at].1, uuid_text(transaction.id))
    &&& fields[at + 1].0@ == "received"@
    &&& is_text(
        fields[at + 1].1,
        rfc3339_text(
            transaction.received@.seconds,
            transaction.received@.nanoseconds,
            transaction.received@.offset,
        ),
    )
}

/// Whether the fields are those of a request line.
pub open spec fn is_request_line(
    fields: Seq<Field>,
    request: RequestDetails,
    transaction: Option<RequestTransaction>,
) -> bool {
    let at = detail_count(request);
    &&& tells_request(fields, request)
    &&& fields[at].0@ == "content-type"@
    &&& is_optional_text(fields[at].1, request.content_type)
    &&& fields[at + 1].0@ == "user-agent"@
    &&& is_text(fields[at + 1].1, joined(texts(request.user_agents@), "; "@))
    &&& match transaction {
        Some(transaction) => fields.len() == at + 4 && tells_transaction(
            fields,
            at + 2,
            transaction,
        ),
        None => fields.len() == at + 2,
    }
}

/// Whether the fields are those of a response line.
pub open spec fn is_response_line(
    fields: Seq<Field>,
    request: RequestDetails,
    response: ResponseDetails,
    transaction: Option<(RequestTransaction, Option<i64>)>,
) -> bool {
    let at = detail_count(request);
    &&& tells_request(fields, request)
    &&& tells_response(fields, at, response)
    &&& match transaction {
        Some((transaction, elapsed)) => {
            &&& fields.len() == at + 6
            &&& tells_transaction(fields, at + 3, transaction)
            &&& fields[at + 5].0@ == "elapsed_ns"@
            &&& match elapsed {
                Some(elapsed) => is_number(fields[at + 5].1, elapsed as int),
                None => fields[at + 5].1 is Null,
            }
        },
        None => fields.len() == at + 3,
    }
}

/// Fields with the views of a request line are those of a request line.
pub proof fn lemma_request_line(
    fields: Seq<Field>,
    request: RequestDetails,
    transaction: Option<RequestTransaction>,
)
    requires
        fields_of(fields) == request_fields(request, transaction),
    ensures
        is_request_line(fields, request, transaction),
{
    lemma_fields(fields);
    let views = fields_of(fields);
    let at = detail_count(request);
    assert(detail_fields(request).len() == at);
    assert(views[0].1 == fields[0].1@);
    assert(views[1].1 == fields[1].1@);
    if request.route is Some {
        assert(views[2].1 == fields[2].1@);
        assert(views[3].1 == fields[3].1@);
        assert(views[4].1 == fields[4].1@);
    }
    assert(views[at].1 == fields[at].1@);
    assert(views[at + 1].1 == fields[at + 1].1@);
    if transaction is Some {
        assert(views[at + 2].1 == fields[at + 2].1@);
        assert(views[at + 3].1 == fields[at + 3].1@);
    }
}

/// Fields with the views of a response line are those of a response line.
pub proof fn lemma_response_line(
    fields: Seq<Field>,
    request: RequestDetails,
    response: ResponseDetails,
    transaction: Option<(RequestTransaction, Option<i64>)>,
)
    requires
        fields_of(fields) == response_fields(request, response, transaction),
    ensures
        is_response_line(fields, request, response, transaction),
{
    lemma_fields(fields);
    let views = fields_of(fields);
    let at = detail_count(request);
    assert(detail_fields(request).len() == at);
    assert(views[0].1 == fields[0].1@);
    assert(views[1].1 == fields[1].1@);
    if request.route is Some {
        assert(views[2].1 == fields[2].1@);
        assert(views[3].1 == fields[3].1@);
        assert(views[4].1 == fields[4].1@);
    }
    assert(views[at].1 == fields[at].1@);
    assert(views[at + 1].1 == fields[at + 1].1@);
    assert(views[at + 2].1 == fields[at + 2].1@);
    if transaction is Some {
        assert(views[at + 3].1 == fields[at + 3].1@);
        assert(views[at + 4].1 == fields[at + 4].1@);
        assert(views[at + 5].1 == fields[at + 5].1@);
    }
}

/// The request logger is the root logger, and its fields tell the request and its transaction.
pub proof fn law_request_line_tells_the_request<'a, L>(
    slogger: &'a Slogger<L>,
    request: RequestDetails,
    transaction: Option<RequestTransaction>,
    lent: Option<&RequestTransaction>,
    enriched: Enriched<'a, L>,
)
    requires
        match transaction {
            Some(transaction) => lent == Some(&transaction),
            None => lent is None,
        },
        call_ensures(Slogger::<L>::get_for_request, (slogger, &request, lent), enriched),
    ensures
        *enriched.logger == slogger.logger,
        is_request_line(enriched.fields@, request, transaction),
{
    lemma_request_line(enriched.fields@, request, transaction);
}

/// The response logger is the root logger, and its fields tell the request, the response, and the
/// transaction with the time since it began.
pub proof fn law_response_line_tells_the_response<'a, L>(
    slogger: &'a Slogger<L>,
    request: RequestDetails,
    response: ResponseDetails,
    transaction: RequestTransaction,
    elapsed: Option<i64>,
    with: Enriched<'a, L>,
    without: Enriched<'a, L>,
)
    ensures
        call_ensures(
            Slogger::<L>::get_for_response_after,
            (slogger, &request, &response, Some((&transaction, elapsed))),
            with,
        ) ==> *with.logger == slogger.logger && is_response_line(
            with.fields@,
            request,
            response,
            Some((transaction, elapsed)),
        ),
        call_ensures(
            Slogger::<L>::get_for_response_after,
            (slogger, &request, &response, None),
            without,
        ) ==> *without.logger == slogger.logger && is_response_line(
            without.fields@,
            request,
            response,
            None,
        ),
{
    if call_ensures(
        Slogger::<L>::get_for_response_after,
        (slogger, &request, &response, Some((&transaction, elapsed))),
        with,
    ) {
        lemma_response_line(with.fields@, request, response, Some((transaction, elapsed)));
    }
    if call_ensures(
        Slogger::<L>::get_for_response_after,
        (slogger, &request, &response, None),
        without,
    ) {
        lemma_response_line(without.fields@, request, response, None);
    }
}

/// Where the clock is read, the fields are the same, and the elapsed time is the one from the
/// receive time to a reading of the clock.
pub proof fn law_response_line_tells_the_time<'a, L>(
    slogger: &'a Slogger<L>,
    request: RequestDetails,
    response: ResponseDetails,
    transaction: RequestTransaction,
    with: Enriched<'a, L>,
    without: Enriched<'a, L>,
)
    ensures
        call_ensures(
            Slogger::<L>::get_for_response,
            (slogger, &request, &response, Some(&transaction)),
            with,
        ) ==> *with.logger == slogger.logger && exists|now: TimestampView| #[trigger]
            now.was_read(TimeZone::Utc) && is_response_line(
                with.fields@,
                request,
                response,
                Some((transaction, counted(nanoseconds_from(transaction.received@, now)))),
            ),
        call_ensures(
            Slogger::<L>::get_for_response,
            (slogger, &request, &response, None),
            without,
        ) ==> *without.logger == slogger.logger && is_response_line(
            without.fields@,
            request,
            response,
            None,
        ),
{
    if call_ensures(
        Slogger::<L>::get_for_response,
        (slogger, &request, &response, Some(&transaction)),
        with,
    ) {
        let now = choose|now: TimestampView| #[trigger]
            now.is_clock_reading() && now.offset == 0 && now.was_read(TimeZone::Utc) && fields_of(
                with.fields@,
            ) == response_fields(
                request,
                response,
                Some((transaction, counted(nanoseconds_from(transaction.received@, now)))),
            );
        lemma_response_line(
            with.fields@,
            request,
            response,
            Some((transaction, counted(nanoseconds_from(transaction.received@, now)))),
        );
    }
    if call_ensures(
        Slogger::<L>::get_for_response,
        (slogger, &request, &response, None),
        without,
    ) {
        lemma_response_line(without.fields@, request, response, None);
    }
}

/// Response lines with the same fields come from the same response to the same request: code,
/// reason and content type, URI and route.
pub proof fn law_response_lines_tell_responses_apart<'a, L>(
    slogger: &'a Slogger<L>,
    request: RequestDetails,
    other_request: RequestDetails,
    response: ResponseDetails,
    other: ResponseDetails,
    line: Enriched<'a, L>,
    other_line: Enriched<'a, L>,
)
    requires
        request.route is Some <==> other_request.route is Some,
        call_ensures(
            Slogger::<L>::get_for_response_after,
            (slogger, &request, &response, None),
            line,
        ),
        call_ensures(
            Slogger::<L>::get_for_response_after,
            (slogger, &other_request, &other, None),
            other_line,
        ),
    ensures
        ({
            let at = detail_count(request);
            let a = line.fields@;
            let b = other_line.fields@;
            &&& a[at].1@ == b[at].1@ <==> response.code == other.code
            &&& a[at + 1].1@ == b[at + 1].1@ <==> same_optional(response.reason, other.reason)
            &&& a[at + 2].1@ == b[at + 2].1@ <==> same_optional(
                response.content_type,
                other.content_type,
            )
            &&& a[0].1@ == b[0].1@ <==> request.uri@ == other_request.uri@
            &&& request.route is Some ==> {
                &&& a[2].1@ == b[2].1@ <==> request.route->0.uri@ == other_request.route->0.uri@
                &&& a[3].1@ == b[3].1@ <==> same_optional(
                    request.route->0.name,
                    other_request.route->0.name,
                )
                &&& a[4].1@ == b[4].1@ <==> request.route->0.rank == other_request.route->0.rank
            }
        }),
{
    let at = detail_count(request);
    lemma_response_line(line.fields@, request, response, None);
    lemma_response_line(other_line.fields@, other_request, other, None);
    lemma_fields(line.fields@);
    lemma_fields(other_line.fields@);
    assert(fields_of(line.fields@)[at].1 == line.fields@[at].1@);
    assert(fields_of(other_line.fields@)[at].1 == other_line.fields@[at].1@);
    if request.route is Some {
        assert(fields_of(line.fields@)[4].1 == line.fields@[4].1@);
        assert(fields_of(other_line.fields@)[4].1 == other_line.fields@[4].1@);
    }
}

/// Whether `text` is the address of the server: the scheme that it speaks, the address, and the
/// port in decimal.
pub open spec fn is_url(text: Seq<char>, config: LaunchConfig) -> bool {
    let rest = "://"@ + config.address@ + ":"@ + decimal(config.port as nat);
    &&& config.tls ==> text == "https"@ + rest
    &&& !config.tls ==> text == "http"@ + rest
}

/// Whether a field is the address of the server with `rest` behind it.
pub open spec fn is_url_to(field: FieldValue, config: LaunchConfig, rest: Seq<char>) -> bool {
    exists|url: Seq<char>| #[trigger] is_url(url, config) && is_text(field, url + rest)
}

/// The address of the server says whether it speaks TLS, and where it listens.
pub proof fn law_url_tells_scheme_address_and_port(config: LaunchConfig, url: String)
    requires
        call_ensures(url_from_rocket_config, (&config,), url),
    ensures
        is_url(url@, config),
{
    lemma_url(config);
}

/// The address of the server is its scheme, address and port.
proof fn lemma_url(config: LaunchConfig)
    ensures
        is_url(server_url(config), config),
{
    let rest = "://"@ + config.address@ + ":"@ + decimal(config.port as nat);
    if config.tls {
        assert(server_url(config) =~= "https"@ + rest);
    } else {
        assert(server_url(config) =~= "http"@ + rest);
    }
}

/// The directory for temporary files is told as it is, and as an empty text where its path is no
/// text.
pub proof fn law_temp_dir_is_told(config: LaunchConfig, path: String)
    requires
        call_ensures(temp_dir_path_from_rocket_config, (&config,), path),
    ensures
        match config.temp_dir {
            Some(dir) => path@ == dir@,
            None => path@.len() == 0,
        },
{
}

/// Whether a line tells the configuration.
pub open spec fn tells_config(line: LogLine, config: LaunchConfig) -> bool {
    let f = line.fields@;
    &&& line.message@ == "Rocket Launched"@
    &&& keys(f) == seq![
        "profile"@,
        "url"@,
        "host"@,
        "port"@,
        "workers"@,
        "keep_alive"@,
        "limits"@,
        "tls"@,
        "ident"@,
        "temp_dir"@,
        "log_level"@,
    ]
    &&& is_text(f[0].1, config.profile@)
    &&& f[1].1 is Str
    &&& is_url(f[1].1->Str_0@, config)
    &&& is_text(f[2].1, config.address@)
    &&& is_number(f[3].1, config.port as int)
    &&& is_number(f[4].1, config.workers as int)
    &&& is_number(f[5].1, config.keep_alive as int)
    &&& is_text(f[6].1, config.limits@)
    &&& f[7].1 == FieldValue::Bool(config.tls)
    &&& is_text(f[8].1, config.ident@)
    &&& f[9].1 is Str
    &&& config.temp_dir is Some ==> is_text(f[9].1, config.temp_dir->0@)
    &&& config.temp_dir is None ==> f[9].1->Str_0@.len() == 0
    &&& is_text(f[10].1, config.log_level@)
}

/// Whether a line tells how many routes are listed.
pub open spec fn tells_lists(line: LogLine, shown: nat, skipped: nat) -> bool {
    let f = line.fields@;
    &&& line.message@ == "Request/Response Log Filtering Active"@
    &&& keys(f) == seq!["skip"@, "show"@]
    &&& is_number(f[0].1, skipped as int)
    &&& is_number(f[1].1, shown as int)
}

/// Whether a line tells a route.
pub open spec fn tells_route(line: LogLine, config: LaunchConfig, route: Route) -> bool {
    let f = line.fields@;
    &&& line.message@ == "Route Registered"@
    &&& keys(f) == seq![
        "method"@,
        "url"@,
        "path"@,
        "content-type"@,
        "route"@,
        "rank"@,
        "auto_log"@,
        "auto_log_overlaps"@,
    ]
    &&& is_text(f[0].1, route.method.name())
    &&& is_url_to(f[1].1, config, route.uri@)
    &&& is_text(f[2].1, route.uri@)
    &&& is_optional_text(f[3].1, route.format)
    &&& is_optional_text(f[4].1, route.name)
    &&& is_number(f[5].1, route.rank as int)
}

/// Whether a line tells an error catcher.
pub open spec fn tells_catcher(line: LogLine, config: LaunchConfig, catcher: Catcher) -> bool {
    let f = line.fields@;
    &&& line.message@ == "Catcher Registered"@
    &&& keys(f) == seq!["url"@, "path"@, "code"@, "route"@]
    &&& is_url_to(f[0].1, config, catcher.base@)
    &&& is_text(f[1].1, catcher.base@)
    &&& match catcher.code {
        Some(code) => is_number(f[2].1, code as int),
        None => f[2].1 is Null,
    }
    &&& is_optional_text(f[3].1, catcher.name)
}

/// Whether a line tells where the server listens.
pub open spec fn tells_address(line: LogLine, config: LaunchConfig) -> bool {
    let f = line.fields@;
    &&& line.message@ == "Accepting Connections"@
    &&& keys(f) == seq!["url"@, "host"@, "port"@]
    &&& f[0].1 is Str
    &&& is_url(f[0].1->Str_0@, config)
    &&& is_text(f[1].1, config.address@)
    &&& is_number(f[2].1, config.port as int)
}

/// Where the lines of the routes begin in a launch report.
pub open spec fn first_route_line<L>(slogger: Slogger<L>) -> int {
    if slogger.filter_show@.len() == 0 && slogger.filter_skip@.len() == 0 {
        1
    } else {
        2
    }
}

/// A launch tells the configuration, the lists where there are any, each route, each catcher and
/// where the server listens, in this order, and nothing else.
pub proof fn law_launch_tells_everything_in_order<L>(
    slogger: &Slogger<L>,
    resolved: &ResolvedFilter,
    config: LaunchConfig,
    routes: &[Route],
    catchers: &[Catcher],
    lines: Vec<LogLine>,
    r: int,
    c: int,
)
    requires
        call_ensures(
            Slogger::<L>::on_liftoff,
            (slogger, resolved, &config, routes, catchers),
            lines,
        ),
    ensures
        ({
            let first = first_route_line(*slogger);
            &&& lines@.len() == first + routes@.len() + catchers@.len() + 1
            &&& tells_config(lines@[0], config)
            &&& first == 2 ==> tells_lists(
                lines@[1],
                slogger.filter_show@.len(),
                slogger.filter_skip@.len(),
            )
            &&& 0 <= r < routes@.len() ==> tells_route(lines@[first + r], config, routes@[r])
            &&& 0 <= c < catchers@.len() ==> tells_catcher(
                lines@[first + routes@.len() + c],
                config,
                catchers@[c],
            )
            &&& tells_address(lines@.last(), config)
        }),
{
    let first = first_route_line(*slogger);
    let report = launch_report(
        slogger.filter_show@.len(),
        slogger.filter_skip@.len(),
        resolved@,
        config,
        routes@,
        catchers@,
    );
    assert(lines_of(lines@) == report);
    assert(report.len() == lines@.len());
    lemma_url(config);
    assert(report[0] == lines@[0]@);
    assert(report[0] == launched_line(config));
    lemma_line(lines@[0]);
    assert(keys(lines@[0].fields@) =~= seq![
        "profile"@,
        "url"@,
        "host"@,
        "port"@,
        "workers"@,
        "keep_alive"@,
        "limits"@,
        "tls"@,
        "ident"@,
        "temp_dir"@,
        "log_level"@,
    ]);
    assert(tells_config(lines@[0], config));
    if first == 2 {
        assert(report[1] == lines@[1]@);
        assert(report[1] == filtering_lines(
            slogger.filter_show@.len(),
            slogger.filter_skip@.len(),
        )[0]);
        lemma_line(lines@[1]);
        assert(keys(lines@[1].fields@) =~= seq!["skip"@, "show"@]);
        assert(slogger.filter_show.len() == slogger.filter_show@.len());
        assert(slogger.filter_skip.len() == slogger.filter_skip@.len());
        assert(tells_lists(lines@[1], slogger.filter_show@.len(), slogger.filter_skip@.len()));
    }
    if 0 <= r < routes@.len() {
        let line = lines@[first + r];
        assert(report[first + r] == line@);
        assert(report[first + r] == route_line(resolved@, server_url(config), routes@[r]));
        lemma_line(line);
        assert(keys(line.fields@) =~= seq![
            "method"@,
            "url"@,
            "path"@,
            "content-type"@,
            "route"@,
            "rank"@,
            "auto_log"@,
            "auto_log_overlaps"@,
        ]);
        assert(tells_route(line, config, routes@[r]));
    }
    if 0 <= c < catchers@.len() {
        let at = first + routes@.len() + c;
        let line = lines@[at];
        assert(report[at] == line@);
        assert(report[at] == catcher_line(server_url(config), catchers@[c]));
        lemma_line(line);
        assert(keys(line.fields@) =~= seq!["url"@, "path"@, "code"@, "route"@]);
        assert(tells_catcher(line, config, catchers@[c]));
    }
    let last = lines@.last();
    assert(report.last() == last@);
    assert(report.last() == accepting_line(config));
    lemma_line(last);
    assert(keys(last.fields@) =~= seq!["url"@, "host"@, "port"@]);
}

/// The view of a line has its fields one by one.
proof fn lemma_line(line: LogLine)
    ensures
        line@.message == line.message@,
        line@.fields.len() == line.fields@.len(),
        keys(line.fields@).len() == line.fields@.len(),
        forall|i: int|
            0 <= i < line.fields@.len() ==> (#[trigger] line.fields@[i]).1@ == line@.fields[i].1
                && line.fields@[i].0@ == line@.fields[i].0 && keys(line.fields@)[i]
                == line.fields@[i].0@,
{
    lemma_fields(line.fields@);
    assert forall|i: int| 0 <= i < line.fields@.len() implies (
    #[trigger] line.fields@[i]).1@ == line@.fields[i].1 && line.fields@[i].0@ == line@.fields[i].0 && keys(line.fields@)[i]
        == line.fields@[i].0@ by {
        assert(fields_of(line.fields@)[i].1 == line.fields@[i].1@);
    }
}

/// The line of a route carries the word and the overlaps of the status that its mounted path is
/// classified with.
pub proof fn law_route_line_carries_the_status<L>(
    slogger: &Slogger<L>,
    resolved: &ResolvedFilter,
    config: LaunchConfig,
    routes: &[Route],
    catchers: &[Catcher],
    lines: Vec<LogLine>,
    r: int,
    path: &str,
    segments: Vec<Segment>,
    route: &[Segment],
    status: AutoLog,
    label: &'static str,
    overlaps: Option<String>,
)
    requires
        0 <= r < routes@.len(),
        call_ensures(
            Slogger::<L>::on_liftoff,
            (slogger, resolved, &config, routes, catchers),
            lines,
        ),
        path@ == routes@[r].path@,
        call_ensures(Segment::parse_path, (path,), segments),
        route@ == segments@,
        call_ensures(ResolvedFilter::classify, (resolved, routes@[r].method, route), status),
        call_ensures(AutoLog::label, (&status,), label),
        call_ensures(AutoLog::overlaps_field, (&status,), overlaps),
    ensures
        ({
            let f = lines@[first_route_line(*slogger) + r].fields@;
            &&& f[6].0@ == "auto_log"@
            &&& is_text(f[6].1, label@)
            &&& f[7].0@ == "auto_log_overlaps"@
            &&& is_optional_text(f[7].1, overlaps)
        }),
{
    lemma_route_line(slogger, resolved, config, routes, catchers, lines, r);
}

/// The line of a route, by its views.
proof fn lemma_route_line<L>(
    slogger: &Slogger<L>,
    resolved: &ResolvedFilter,
    config: LaunchConfig,
    routes: &[Route],
    catchers: &[Catcher],
    lines: Vec<LogLine>,
    r: int,
)
    requires
        0 <= r < routes@.len(),
        call_ensures(
            Slogger::<L>::on_liftoff,
            (slogger, resolved, &config, routes, catchers),
            lines,
        ),
    ensures
        ({
            let f = lines@[first_route_line(*slogger) + r].fields@;
            let status = resolved@.classification(routes@[r].method, parsed(routes@[r].path@));
            &&& f.len() == 8
            &&& f[6].0@ == "auto_log"@
            &&& f[6].1@ == FieldValueView::Str(status.label())
            &&& f[7].0@ == "auto_log_overlaps"@
            &&& f[7].1@ == overlaps_value(status)
        }),
{
    let at = first_route_line(*slogger) + r;
    let report = launch_report(
        slogger.filter_show@.len(),
        slogger.filter_skip@.len(),
        resolved@,
        config,
        routes@,
        catchers@,
    );
    assert(lines_of(lines@) == report);
    assert(report[at] == lines@[at]@);
    assert(report[at] == route_line(resolved@, server_url(config), routes@[r]));
    lemma_line(lines@[at]);
    assert(lines@[at].fields@[6].1@ == report[at].fields[6].1);
    assert(lines@[at].fields@[7].1@ == report[at].fields[7].1);
}

/// What the line of a route reports is true of the requests to it: where it says "always", every
/// request to the route is logged, and where it says "never", none is.
pub proof fn law_route_line_is_true_of_the_requests<L>(
    slogger: &Slogger<L>,
    resolved: &ResolvedFilter,
    config: LaunchConfig,
    routes: &[Route],
    catchers: &[Catcher],
    lines: Vec<LogLine>,
    r: int,
    path: &str,
    logged: bool,
)
    requires
        0 <= r < routes@.len(),
        trailing_ends(parsed(routes@[r].path@)),
        call_ensures(
            Slogger::<L>::on_liftoff,
            (slogger, resolved, &config, routes, catchers),
            lines,
        ),
        path_fits(parsed(routes@[r].path@), path@),
        call_ensures(ResolvedFilter::should_log, (resolved, routes@[r].method, path), logged),
    ensures
        ({
            let auto_log = lines@[first_route_line(*slogger) + r].fields@[6].1;
            &&& is_text(auto_log, "always"@) ==> logged
            &&& is_text(auto_log, "never"@) ==> !logged
            &&& {
                ||| is_text(auto_log, "always"@)
                ||| is_text(auto_log, "never"@)
                ||| is_text(auto_log, "conditional"@)
            }
        }),
{
    lemma_route_line(slogger, resolved, config, routes, catchers, lines, r);
    reveal_strlit("always");
    reveal_strlit("never");
    reveal_strlit("conditional");
    assert("always"@.len() == 6 && "never"@.len() == 5 && "conditional"@.len() == 11);
    let route = parsed(routes@[r].path@);
    let method = routes@[r].method;
    match resolved@.classification(method, route) {
        AutoLogView::Always => {
            law_always_is_always(resolved@, method, route, path@);
        },
        AutoLogView::Never => {
            law_never_is_never(resolved@, method, route, path@);
        },
        _ => {},
    }
}

/// The line of a mounted route that comes from a skipped handle says "never", wherever it is
/// mounted.
pub proof fn law_skipped_route_is_reported_as_never_logged<L>(
    before: Slogger<L>,
    skipped: Vec<Route>,
    slogger: Slogger<L>,
    resolved: ResolvedFilter,
    config: LaunchConfig,
    routes: &[Route],
    catchers: &[Catcher],
    lines: Vec<LogLine>,
    r: int,
    k: int,
)
    requires
        0 <= r < routes@.len(),
        0 <= k < skipped@.len(),
        same_handle(routes@[r], skipped@[k]),
        call_ensures(Slogger::<L>::skip_reqres_logs, (before, skipped), slogger),
        call_ensures(Slogger::<L>::resolved_filter, (&slogger, routes), resolved),
        call_ensures(
            Slogger::<L>::on_liftoff,
            (&slogger, &resolved, &config, routes, catchers),
            lines,
        ),
    ensures
        is_text(lines@[first_route_line(slogger) + r].fields@[6].1, "never"@),
        lines@[first_route_line(slogger) + r].fields@[7].1 is Null,
{
    lemma_route_line(&slogger, &resolved, config, routes, catchers, lines, r);
    let listed = route_keys(skipped@);
    let keys = keys_of(slogger.filter_skip@);
    let at = keys_of(before.filter_skip@).len() + k;
    assert(listed[k] == route_key(skipped@[k]));
    assert(route_key(skipped@[k]) == route_key(routes@[r]));
    assert(keys[at] == listed[k]);
    assert(routes@.contains(routes@[r]));
    law_skipped_route_is_never_logged(
        routes@,
        keys_of(slogger.filter_show@),
        keys,
        routes@[r],
        Seq::empty(),
    );
    assert(resolved@ == resolution(routes@, keys_of(slogger.filter_show@), keys));
}

} // verus!
