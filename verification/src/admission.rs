use vstd::prelude::*;

use vstd::string::StringExecFns;

verus! {

/// The hard cap on concurrently in-flight requests.
pub const CONCURRENCY_LIMIT: usize = 1024;

/// The per-request timeout, in milliseconds.
pub const TIMEOUT_MILLIS: u64 = 10000;

/// The phase of one request's lifecycle through admission.
#[derive(Clone, Copy, Debug, PartialEq, Eq, Structural)]
pub enum RequestPhase {
    /// arrived, not yet decided.
    Received,
    /// holds an in-flight slot and may reach a handler.
    Admitted,
    /// the handler produced a response within the deadline.
    Completed,
    /// the deadline fired before the handler finished.
    TimedOut,
    /// shed at admission: the service was at capacity.
    Rejected,
}

/// Phases that produce a response; no transition leaves them.
pub open spec fn is_terminal(p: RequestPhase) -> bool {
    p is Completed || p is TimedOut || p is Rejected
}

/// The request lifecycle: a received request is admitted or rejected; an
/// admitted request completes or times out.
pub open spec fn phase_step(pre: RequestPhase, post: RequestPhase) -> bool {
    ||| pre is Received && (post is Admitted || post is Rejected)
    ||| pre is Admitted && (post is Completed || post is TimedOut)
}

/// Law: terminal phases are absorbing — no step leaves a phase that has
/// already produced a response.
pub proof fn lemma_terminal_absorbs(pre: RequestPhase, post: RequestPhase)
    requires
        phase_step(pre, post),
    ensures
        !is_terminal(pre),
{
}

/// An admission failure, as raised by the pipeline and translated into an
/// HTTP response by `handle_error`.
pub enum AdmissionError {
    /// admission rejected the request: the service is at capacity.
    Overloaded,
    /// the handler did not complete within the deadline.
    TimedOut,
    /// any other internal failure, with a diagnostic message.
    Unhandled(String),
}

/// Admits at most `cap` concurrently in-flight requests; work beyond the cap
/// is shed (rejected at once), never queued.
pub struct AdmissionGate {
    in_flight: usize,
    cap: usize,
}

impl AdmissionGate {
    /// Requests admitted and not yet settled.
    pub closed spec fn in_flight(self) -> int {
        self.in_flight as int
    }

    /// The cap on concurrent admissions.
    pub closed spec fn cap(self) -> int {
        self.cap as int
    }

    /// The in-flight count never exceeds the cap.
    pub open spec fn wf(self) -> bool {
        0 <= self.in_flight() <= self.cap()
    }

    /// A gate starts with no request in flight.
    pub fn new(cap: usize) -> (g: AdmissionGate)
        ensures
            g.wf(),
            g.cap() == cap,
            g.in_flight() == 0,
    {
        AdmissionGate { in_flight: 0, cap }
    }

    /// Decides a received request: admitted exactly when a slot is free,
    /// otherwise shed — rejected at once rather than queued.
    pub fn admit_or_shed(&mut self) -> (p: RequestPhase)
        requires
            old(self).wf(),
        ensures
            final(self).wf(),
            final(self).cap() == old(self).cap(),
            phase_step(RequestPhase::Received, p),
            p == (if old(self).in_flight() < old(self).cap() {
                RequestPhase::Admitted
            } else {
                RequestPhase::Rejected
            }),
            p is Admitted ==> final(self).in_flight() == old(self).in_flight() + 1,
            p is Rejected ==> final(self).in_flight() == old(self).in_flight(),
    {
        if self.in_flight < self.cap {
            self.in_flight = self.in_flight + 1;
            RequestPhase::Admitted
        } else {
            RequestPhase::Rejected
        }
    }

    /// Settles an admitted request: it completed within the deadline or it
    /// timed out; either way its in-flight slot is released.
    pub fn settle(&mut self, timed_out: bool) -> (p: RequestPhase)
        requires
            old(self).wf(),
            old(self).in_flight() > 0,
        ensures
            final(self).wf(),
            final(self).cap() == old(self).cap(),
            final(self).in_flight() == old(self).in_flight() - 1,
            phase_step(RequestPhase::Admitted, p),
            is_terminal(p),
            p == (if timed_out {
                RequestPhase::TimedOut
            } else {
                RequestPhase::Completed
            }),
    {
        self.in_flight = self.in_flight - 1;
        if timed_out {
            RequestPhase::TimedOut
        } else {
            RequestPhase::Completed
        }
    }
}

/// Whether a request that has already waited `elapsed_millis` has exceeded a
/// timeout of `timeout_millis`.
pub fn deadline_exceeded(elapsed_millis: u64, timeout_millis: u64) -> (r: bool)
    ensures
        r == (elapsed_millis >= timeout_millis),
{
    elapsed_millis >= timeout_millis
}

/// Translates an admission failure into an HTTP status code and plain-text
/// body; a failure that is neither overload nor timeout is a 500 with a
/// diagnostic message.
pub fn handle_error(error: &AdmissionError) -> (r: (u16, String))
    ensures
        error is TimedOut ==> r.0 == 408 && r.1@ == "request timed out"@,
        error is Overloaded ==> r.0 == 503 && r.1@ == "service is overloaded, try again later"@,
        (*error) matches AdmissionError::Unhandled(msg) ==> r.0 == 500 && r.1@
            == "Unhandled internal error: "@ + msg@,
{
    match error {
        AdmissionError::TimedOut => (408, "request timed out".to_owned()),
        AdmissionError::Overloaded => (
            503,
            "service is overloaded, try again later".to_owned(),
        ),
        AdmissionError::Unhandled(msg) => {
            let mut body = "Unhandled internal error: ".to_owned();
            body.append(msg.as_str());
            (500, body)
        },
    }
}

/// One stage of the admission pipeline.
#[derive(Clone, Copy, Debug, PartialEq, Eq, Structural)]
pub enum Stage {
    /// maps failures raised by inner stages to HTTP responses.
    ErrorTranslation,
    /// rejects new work outright when the service is saturated.
    LoadShed,
    /// admits at most `CONCURRENCY_LIMIT` in-flight requests.
    ConcurrencyLimit,
    /// aborts a request that misses the per-request deadline.
    Timeout,
}

/// The admission pipeline, outermost stage first. The chain order is an
/// explicit configuration, not a hidden global: error translation wraps load
/// shedding, which wraps the concurrency limit, which wraps the timeout.
pub fn middleware_chain() -> (r: Vec<Stage>)
    ensures
        r@ == seq![
            Stage::ErrorTranslation,
            Stage::LoadShed,
            Stage::ConcurrencyLimit,
            Stage::Timeout,
        ],
{
    let mut r: Vec<Stage> = Vec::new();
    r.push(Stage::ErrorTranslation);
    r.push(Stage::LoadShed);
    r.push(Stage::ConcurrencyLimit);
    r.push(Stage::Timeout);
    proof {
        assert(r@ =~= seq![
            Stage::ErrorTranslation,
            Stage::LoadShed,
            Stage::ConcurrencyLimit,
            Stage::Timeout,
        ]);
    }
    r
}

} // verus!
