//! The logger as a request guard.

use crate::Slogger;
use vstd::prelude::*;

verus! {

/// The status code of a request whose guard fails: an internal server error.
pub const GUARD_FAILURE: u16 = 500;

/// Resolves the guard of a handler that asks for a logger of its own: the request-enriched logger
/// where the server manages one, wrapped afresh, without lists; otherwise the status code to
/// fail with.
///
/// This can fail, unlike the guard for the fields of the response line: a server that never
/// attached the logger has none to enrich.
pub fn from_request<L>(enriched: Option<L>) -> (guard: Result<Slogger<L>, u16>)
    ensures
        match enriched {
            Some(logger) => guard matches Ok(slogger) && slogger.logger == logger
                && slogger.filter_show@.len() == 0 && slogger.filter_skip@.len() == 0
                && !slogger.emit_request_id_header,
            None => guard == Err::<Slogger<L>, u16>(GUARD_FAILURE),
        },
{
    match enriched {
        Some(logger) => Ok(Slogger::from_logger(logger)),
        None => Err(GUARD_FAILURE),
    }
}

} // verus!
