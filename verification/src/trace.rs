//! Per-request tracing span lifecycle. A span is created when an exchange
//! starts and reaches exactly one terminal state: completed with the response
//! status, or failed with the classified error. The transition contracts
//! admit no second terminal event and never touch the request metadata.

use vstd::prelude::*;
use crate::error::AppError;

verus! {

pub enum SpanState {
    Started,
    Completed(u16),
    Failed(AppError),
}

/// An ephemeral per-exchange record: request metadata and the span state.
pub struct Span {
    pub method: String,
    pub path: String,
    pub state: SpanState,
}

impl Span {
    pub open spec fn is_terminal(&self) -> bool {
        !(self.state is Started)
    }

    /// Opens the span for an inbound exchange, before any handler runs.
    pub fn start(method: String, path: String) -> (s: Span)
        ensures
            s.state is Started,
            !s.is_terminal(),
            s.method@ == method@,
            s.path@ == path@,
    {
        Span { method, path, state: SpanState::Started }
    }

    /// Records the response status: the `Completed` terminal state. Only an
    /// open span can be completed, so each exchange terminates exactly once.
    pub fn complete(&mut self, status: u16)
        requires
            old(self).state is Started,
        ensures
            final(self).state == SpanState::Completed(status),
            final(self).is_terminal(),
            final(self).method@ == old(self).method@,
            final(self).path@ == old(self).path@,
    {
        self.state = SpanState::Completed(status);
    }

    /// Records a classified downstream failure: the `Failed` terminal state.
    pub fn fail(&mut self, err: AppError)
        requires
            old(self).state is Started,
        ensures
            final(self).state == SpanState::Failed(err),
            final(self).is_terminal(),
            final(self).method@ == old(self).method@,
            final(self).path@ == old(self).path@,
    {
        self.state = SpanState::Failed(err);
    }

    /// The status recorded on a completed span.
    pub fn status(&self) -> (r: Option<u16>)
        ensures
            self.state matches SpanState::Completed(st) ==> r == Some(st),
            !(self.state is Completed) ==> r is None,
    {
        match &self.state {
            SpanState::Completed(st) => Some(*st),
            _ => None,
        }
    }
}

} // verus!
