//! What holds of a request from its request line to its response line and header, said of the calls
//! that step it.

use crate::fairing::{
    new_request_line, HandlerRun, LogDecision, LogLine, RequestState, ResponseFinish,
};
use crate::field_laws::{is_number, is_text};
use crate::filter::ResolvedFilter;
use crate::from_request::from_request;
use crate::http::{RequestDetails, ResponseDetails};
use crate::line_laws::{
    detail_count, is_request_line, is_response_line, lemma_request_line, lemma_response_line,
};
use crate::response_log::{fields_of, ResponseLogSnapshot};
use crate::transaction::{
    counted, nanoseconds_from, uuid_text, was_minted, RequestTransaction, TimeZone, TimestampView,
};
use crate::{response_fields, Enriched, Slogger};
use vstd::prelude::*;

verus! {

/// The first decision on a request is kept: a later one is dropped.
pub proof fn law_first_decision_is_kept(
    offered: LogDecision,
    cached: &mut Option<LogDecision>,
    kept: LogDecision,
)
    requires
        call_ensures(LogDecision::attach_on, (offered, cached), kept),
    ensures
        *final(cached) == Some(kept),
        *old(cached) is Some ==> *old(cached) == Some(kept),
        *old(cached) is None ==> kept == offered,
{
}

/// How a request comes by its transaction: it keeps the one that it has, and otherwise one is
/// minted where transactions are on.
pub open spec fn comes_by_transaction(
    before: Option<RequestTransaction>,
    after: Option<RequestTransaction>,
    zone: TimeZone,
) -> bool {
    &&& after is Some
    &&& before is Some ==> after == before
    &&& before is None ==> was_minted(after->0.id) && after->0.received@.was_read(zone)
}

/// A request is taken up exactly when the filter decides for it, and the decision is cached unless
/// there is one. Its line tells the request, and its transaction where transactions are on. One
/// that is not taken up leaves no trace but the decision.
pub proof fn law_request_is_taken_up_as_decided<'a, L>(
    slogger: &'a Slogger<L>,
    resolved: &ResolvedFilter,
    state: &mut RequestState,
    request: RequestDetails,
    transactions: Option<TimeZone>,
    decided: bool,
    enriched: Option<Enriched<'a, L>>,
)
    requires
        call_ensures(ResolvedFilter::filter_decision, (resolved, &request), decided),
        call_ensures(
            Slogger::<L>::begin_request,
            (slogger, resolved, state, &request, transactions),
            enriched,
        ),
    ensures
        enriched is Some <==> decided,
        old(state).decision is None ==> final(state).decision == Some(LogDecision(decided)),
        old(state).decision is Some ==> final(state).decision == old(state).decision,
        enriched matches Some(enriched) ==> *enriched.logger == slogger.logger,
        match transactions {
            Some(zone) => if decided {
                comes_by_transaction(old(state).transaction, final(state).transaction, zone)
                    && is_request_line(
                    enriched->0.fields@,
                    request,
                    final(state).transaction,
                )
            } else {
                final(state).transaction == old(state).transaction
            },
            None => final(state).transaction == old(state).transaction && (decided
                ==> is_request_line(enriched->0.fields@, request, None)),
        },
{
    if decided {
        lemma_request_line(
            enriched->0.fields@,
            request,
            if transactions is Some {
                final(state).transaction
            } else {
                None
            },
        );
    }
}

/// A response is taken up as its request was decided on, and where nothing was decided it is. Its
/// line tells the request and the response, and with transactions the transaction and the time
/// from its receive time to a reading of the clock.
pub proof fn law_response_is_taken_up_as_decided<'a, L>(
    slogger: &'a Slogger<L>,
    state: &mut RequestState,
    request: RequestDetails,
    response: ResponseDetails,
    transactions: Option<TimeZone>,
    enriched: Option<Enriched<'a, L>>,
)
    requires
        call_ensures(
            Slogger::<L>::begin_response,
            (slogger, state, &request, &response, transactions),
            enriched,
        ),
    ensures
        enriched is None <==> old(state).decision == Some(LogDecision(false)),
        final(state).decision == Some(LogDecision(enriched is Some)),
        enriched matches Some(enriched) ==> *enriched.logger == slogger.logger,
        enriched is None || transactions is None ==> final(state).transaction == old(
            state,
        ).transaction,
        enriched is Some && transactions is None ==> is_response_line(
            enriched->0.fields@,
            request,
            response,
            None,
        ),
        enriched is Some && transactions is Some ==> comes_by_transaction(
            old(state).transaction,
            final(state).transaction,
            transactions->0,
        ) && exists|now: TimestampView| #[trigger]
            now.was_read(TimeZone::Utc) && is_response_line(
                enriched->0.fields@,
                request,
                response,
                Some(
                    (
                        final(state).transaction->0,
                        counted(nanoseconds_from(final(state).transaction->0.received@, now)),
                    ),
                ),
            ),
{
    if enriched is Some {
        let fields = enriched->0.fields@;
        if transactions is Some {
            let transaction = final(state).transaction->0;
            let now = choose|now: TimestampView| #[trigger]
                now.is_clock_reading() && now.offset == 0 && now.was_read(TimeZone::Utc)
                    && fields_of(fields) == response_fields(
                    request,
                    response,
                    Some((transaction, counted(nanoseconds_from(transaction.received@, now)))),
                );
            lemma_response_line(
                fields,
                request,
                response,
                Some((transaction, counted(nanoseconds_from(transaction.received@, now)))),
            );
        } else {
            lemma_response_line(fields, request, response, None);
        }
    }
}

/// A response is finished unless its request was decided against. It gets the header exactly where
/// that is asked for, with the id of the transaction; the fields of the bag go along as they are,
/// unless there are none; and its own line tells the size of the body.
pub proof fn law_finished_response_has_header_fields_and_size<L>(
    slogger: &Slogger<L>,
    state: &mut RequestState,
    snapshot: ResponseLogSnapshot,
    body_size: Option<usize>,
    zone: TimeZone,
    finish: Option<ResponseFinish>,
)
    requires
        call_ensures(
            Slogger::<L>::finish_response,
            (slogger, state, snapshot, body_size, zone),
            finish,
        ),
    ensures
        finish is None <==> old(state).decision == Some(LogDecision(false)),
        final(state).decision == old(state).decision,
        finish is None || !slogger.emit_request_id_header ==> final(state).transaction == old(
            state,
        ).transaction,
        finish matches Some(finish) ==> {
            &&& finish.header is Some <==> slogger.emit_request_id_header
            &&& slogger.emit_request_id_header ==> {
                &&& comes_by_transaction(old(state).transaction, final(state).transaction, zone)
                &&& finish.header->0.name@ == "X-Request-Id"@
                &&& finish.header->0.value@ == uuid_text(final(state).transaction->0.id)
            }
            &&& finish.layer is Some <==> snapshot.0@.len() > 0
            &&& finish.layer is Some ==> {
                &&& finish.layer->0@.len() == snapshot.0@.len()
                &&& forall|i: int|
                    0 <= i < snapshot.0@.len() ==> (#[trigger] finish.layer->0@[i]).0@
                        == snapshot.0@[i].0@ && finish.layer->0@[i].1@ == snapshot.0@[i].1@
            }
            &&& finish.line.message@ == "Response"@
            &&& finish.line.fields@.len() == 1
            &&& finish.line.fields@[0].0@ == "size"@
            &&& match body_size {
                Some(size) => is_number(finish.line.fields@[0].1, size as int),
                None => finish.line.fields@[0].1 is Null,
            }
        },
{
    if finish is Some {
        let line = finish->0.line;
        assert(fields_of(line.fields@).len() == 1);
        assert(fields_of(line.fields@)[0] == (line.fields@[0].0@, line.fields@[0].1@));
        assert(fields_of(snapshot.0@).len() == snapshot.0@.len());
        if finish->0.layer is Some {
            let layer = finish->0.layer->0@;
            assert(fields_of(layer).len() == layer.len());
            assert forall|i: int| 0 <= i < snapshot.0@.len() implies (#[trigger] layer[i]).0@
                == snapshot.0@[i].0@ && layer[i].1@ == snapshot.0@[i].1@ by {
                assert(fields_of(layer)[i] == (layer[i].0@, layer[i].1@));
                assert(fields_of(snapshot.0@)[i] == (snapshot.0@[i].0@, snapshot.0@[i].1@));
            }
        }
    }
}

/// A request that comes in fresh gives its request line, its response line and its header, or none
/// of them; and where it does, with transactions on, all of them carry one and the same id, the
/// one that was minted when it was taken up.
pub proof fn law_request_runs_through_with_one_id<'a, L>(
    slogger: &'a Slogger<L>,
    resolved: &ResolvedFilter,
    fresh: RequestState,
    at_request: &mut RequestState,
    at_response: &mut RequestState,
    at_finish: &mut RequestState,
    request: RequestDetails,
    routed: RequestDetails,
    response: ResponseDetails,
    zone: TimeZone,
    snapshot: ResponseLogSnapshot,
    body_size: Option<usize>,
    decided: bool,
    first: Option<Enriched<'a, L>>,
    second: Option<Enriched<'a, L>>,
    finish: Option<ResponseFinish>,
)
    requires
        call_ensures(RequestState::new, (), fresh),
        call_ensures(ResolvedFilter::filter_decision, (resolved, &request), decided),
        *old(at_request) == fresh,
        call_ensures(
            Slogger::<L>::begin_request,
            (slogger, resolved, at_request, &request, Some(zone)),
            first,
        ),
        *old(at_response) == *final(at_request),
        call_ensures(
            Slogger::<L>::begin_response,
            (slogger, at_response, &routed, &response, Some(zone)),
            second,
        ),
        *old(at_finish) == *final(at_response),
        call_ensures(
            Slogger::<L>::finish_response,
            (slogger, at_finish, snapshot, body_size, zone),
            finish,
        ),
    ensures
        first is Some <==> decided,
        second is Some <==> decided,
        finish is Some <==> decided,
        decided ==> ({
            let id = final(at_request).transaction->0.id;
            let text = uuid_text(id);
            &&& was_minted(id)
            &&& is_text(first->0.fields@[detail_count(request) + 2].1, text)
            &&& is_text(second->0.fields@[detail_count(routed) + 3].1, text)
            &&& slogger.emit_request_id_header ==> finish->0.header->0.value@ == text
        }),
        !decided ==> final(at_finish).transaction is None,
{
    law_request_is_taken_up_as_decided(
        slogger,
        resolved,
        at_request,
        request,
        Some(zone),
        decided,
        first,
    );
    law_response_is_taken_up_as_decided(
        slogger,
        at_response,
        routed,
        response,
        Some(zone),
        second,
    );
}

/// The request line has its message and no fields of its own.
pub proof fn law_request_line_has_its_message(line: LogLine)
    requires
        call_ensures(new_request_line, (), line),
    ensures
        line.message@ == "Request"@,
        line.fields@.len() == 0,
{
    assert(fields_of(line.fields@).len() == 0);
}

/// Hooks are run in the order of their registration, each once: a run begins with the first, goes
/// on with the next after each reply, and ends behind the last. A reply that gives a logger
/// replaces the one that goes on, and one that gives none leaves it.
pub proof fn law_hooks_are_run_one_after_the_other<L>(
    logger: L,
    count: usize,
    begun: HandlerRun<L>,
    run: &mut HandlerRun<L>,
    reply: Option<L>,
    before: Option<usize>,
    after: Option<usize>,
)
    requires
        call_ensures(HandlerRun::<L>::new, (logger, count), begun),
        call_ensures(HandlerRun::<L>::pending, (&*old(run),), before),
        before is Some,
        call_ensures(HandlerRun::<L>::reply, (run, reply), ()),
        call_ensures(HandlerRun::<L>::pending, (&*final(run),), after),
    ensures
        begun.logger == logger,
        call_ensures(HandlerRun::<L>::pending, (&begun,), before) && begun == *old(run) ==> before
            == Some(0usize) && count > 0,
        after matches Some(next) ==> next == before->0 + 1,
        after is None <==> before->0 + 1 == old(run).count,
        final(run).count == old(run).count,
        match reply {
            Some(given) => final(run).logger == given,
            None => final(run).logger == old(run).logger,
        },
{
}

/// The guard gives a logger exactly where the server manages one, the very one, without lists or
/// header; otherwise the request fails with the status of an internal server error.
pub proof fn law_guard_fails_only_without_a_logger<L>(
    enriched: Option<L>,
    guard: Result<Slogger<L>, u16>,
)
    requires
        call_ensures(from_request::<L>, (enriched,), guard),
    ensures
        match enriched {
            Some(logger) => guard is Ok && guard->Ok_0.logger == logger
                && guard->Ok_0.filter_show@.len() == 0 && guard->Ok_0.filter_skip@.len() == 0
                && !guard->Ok_0.emit_request_id_header,
            None => guard is Err && guard->Err_0 == 500,
        },
{
}

} // verus!
