//! Model of the admission pipeline wrapped around every route: load shedding,
//! a fixed concurrency ceiling, a fixed per-request timeout, and the
//! translation of the errors those layers raise. The order matters: a request
//! is shed or admitted first, and only an admitted request can time out;
//! handler-level failures never reach this translation.
use vstd::prelude::*;
use vstd::string::StringExecFns;
use crate::service::STATUS_INTERNAL_ERROR;

verus! {

/// Most requests allowed in flight at once.
pub const CONCURRENCY_LIMIT: usize = 1024;

/// Seconds a request may run before it is aborted.
pub const TIMEOUT_SECS: u64 = 10;

pub const STATUS_REQUEST_TIMEOUT: u16 = 408;
pub const STATUS_SERVICE_UNAVAILABLE: u16 = 503;

/// The concurrency gate: how many requests are in flight, against the ceiling.
pub struct Admission {
    pub in_flight: usize,
    pub limit: usize,
}

/// In-flight count after one admission attempt.
pub open spec fn spec_admit(in_flight: usize, limit: usize) -> usize {
    if in_flight < limit {
        (in_flight + 1) as usize
    } else {
        in_flight
    }
}

/// In-flight count after `n` admission attempts from an idle gate with no
/// release in between.
pub open spec fn spec_admit_burst(n: nat, limit: usize) -> usize
    decreases n,
{
    if n == 0 {
        0
    } else {
        spec_admit(spec_admit_burst((n - 1) as nat, limit), limit)
    }
}

impl Admission {
    /// An idle gate admitting at most `limit` requests at once.
    pub fn new(limit: usize) -> (r: Admission)
        ensures
            r.in_flight == 0,
            r.limit == limit,
    {
        Admission { in_flight: 0, limit }
    }

    /// One admission decision: true, taking a slot, while a slot is free;
    /// false, and no state changes, once the ceiling is reached.
    pub fn try_admit(&mut self) -> (admitted: bool)
        ensures
            admitted == (old(self).in_flight < old(self).limit),
            final(self).in_flight == spec_admit(old(self).in_flight, old(self).limit),
            final(self).limit == old(self).limit,
    {
        if self.in_flight < self.limit {
            self.in_flight = self.in_flight + 1;
            true
        } else {
            false
        }
    }

    /// Returns an admitted request's slot.
    pub fn release(&mut self)
        requires
            old(self).in_flight >= 1,
        ensures
            final(self).in_flight == old(self).in_flight - 1,
            final(self).limit == old(self).limit,
    {
        self.in_flight = self.in_flight - 1;
    }
}

/// Law: a burst of `n` concurrent requests against an idle gate fills it to
/// min(n, limit); every attempt past the ceiling is shed.
pub proof fn lemma_admission_ceiling(n: nat, limit: usize)
    ensures
        n <= limit ==> spec_admit_burst(n, limit) == n,
        n > limit ==> spec_admit_burst(n, limit) == limit,
        n > limit ==> spec_admit(spec_admit_burst(n, limit), limit) == limit,
    decreases n,
{
    if n > 0 {
        lemma_admission_ceiling((n - 1) as nat, limit);
    }
}

/// What one request comes to under the pipeline: shed requests get the
/// overload status, admitted ones that exceed the timeout get the timeout
/// status, and only otherwise does the handler's own status stand.
pub open spec fn spec_pipeline_verdict(admitted: bool, elapsed_secs: u64, handler_status: u16) -> u16 {
    if !admitted {
        STATUS_SERVICE_UNAVAILABLE
    } else if elapsed_secs >= TIMEOUT_SECS {
        STATUS_REQUEST_TIMEOUT
    } else {
        handler_status
    }
}

/// Resolves one request's status from its admission, its duration in seconds,
/// and what the handler would have answered.
pub fn pipeline_verdict(admitted: bool, elapsed_secs: u64, handler_status: u16) -> (r: u16)
    ensures
        r == spec_pipeline_verdict(admitted, elapsed_secs, handler_status),
        !admitted ==> r == STATUS_SERVICE_UNAVAILABLE,
        admitted && elapsed_secs >= TIMEOUT_SECS ==> r == STATUS_REQUEST_TIMEOUT,
{
    if !admitted {
        STATUS_SERVICE_UNAVAILABLE
    } else if elapsed_secs >= TIMEOUT_SECS {
        STATUS_REQUEST_TIMEOUT
    } else {
        handler_status
    }
}

/// An error raised by the pipeline itself, below any handler.
pub enum MiddlewareError {
    /// The timeout layer aborted the request.
    Elapsed,
    /// The load shedder refused the request.
    Overloaded,
    /// Any other middleware failure, with its description.
    Other(String),
}

/// Translates a middleware error into the outermost response: timeout and
/// overload each get their status and fixed message, anything else is an
/// internal error carrying its description.
pub fn handle_error(error: &MiddlewareError) -> (r: (u16, String))
    ensures
        (match error {
            MiddlewareError::Elapsed => r.0 == STATUS_REQUEST_TIMEOUT && r.1@
                == "request timed out"@,
            MiddlewareError::Overloaded => r.0 == STATUS_SERVICE_UNAVAILABLE && r.1@
                == "service is overloaded, try again later"@,
            MiddlewareError::Other(msg) => r.0 == STATUS_INTERNAL_ERROR && r.1@
                == "Unhandled internal error: "@ + msg@,
        }),
{
    match error {
        MiddlewareError::Elapsed => (
            STATUS_REQUEST_TIMEOUT,
            String::from_str("request timed out"),
        ),
        MiddlewareError::Overloaded => (
            STATUS_SERVICE_UNAVAILABLE,
            String::from_str("service is overloaded, try again later"),
        ),
        MiddlewareError::Other(msg) => {
            let mut s = String::from_str("Unhandled internal error: ");
            s.append(msg.as_str());
            (STATUS_INTERNAL_ERROR, s)
        },
    }
}

} // verus!
