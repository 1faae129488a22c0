//! Single-flight compilation queue policy.
//!
//! The editor can fire a compilation request on every keystroke while
//! a compilation takes seconds, so the queue holds at most one
//! pending request: a submission finding the slot occupied is dropped
//! on the spot, never queued behind it.  The policy — who is
//! accepted, who is dropped, what the worker takes — is defined and
//! verified here; the channel and worker task that realize it run
//! outside.

use vstd::prelude::*;

verus! {

/// A compilation request as the editor submits it.
#[derive(Debug, Clone)]
pub struct CompilationRequest {
    pub source: String,
    pub dark_mode: bool,
}

/// Policy state of the queue: the single pending slot, whether the
/// worker is mid-compilation, and whether new work is still accepted.
pub struct QueuePolicy {
    pub pending: Option<CompilationRequest>,
    pub busy: bool,
    pub accepting: bool,
}

/// Whether a submission is accepted in state `pending`/`accepting`.
pub open spec fn submit_accepts(q: QueuePolicy) -> bool {
    q.accepting && q.pending is None
}

impl QueuePolicy {
    /// A fresh queue: idle, empty, accepting.
    pub fn new() -> (q: QueuePolicy)
        ensures
            q.pending is None,
            !q.busy,
            q.accepting,
    {
        QueuePolicy { pending: None, busy: false, accepting: true }
    }

    /// Submission: accepted exactly when the queue still accepts work
    /// and the pending slot is free; a rejected request leaves no
    /// trace.  Rejection is immediate — the caller is never made to
    /// wait behind the pending request.
    pub fn submit(&mut self, request: CompilationRequest) -> (accepted: bool)
        ensures
            accepted == submit_accepts(*old(self)),
            accepted ==> final(self).pending == Some(request),
            !accepted ==> final(self).pending == old(self).pending,
            final(self).busy == old(self).busy,
            final(self).accepting == old(self).accepting,
    {
        if self.accepting && self.pending.is_none() {
            self.pending = Some(request);
            true
        } else {
            false
        }
    }

    /// The idle worker takes the pending request, if any, and becomes
    /// busy for exactly that request.
    pub fn take(&mut self) -> (r: Option<CompilationRequest>)
        requires
            !old(self).busy,
        ensures
            r == old(self).pending,
            final(self).pending is None,
            final(self).busy == (r is Some),
            final(self).accepting == old(self).accepting,
    {
        let r = self.pending.take();
        self.busy = r.is_some();
        r
    }

    /// The worker finished the compilation it had taken and is idle
    /// again; the result went to the one caller whose request it was.
    pub fn finish(&mut self)
        requires
            old(self).busy,
        ensures
            !final(self).busy,
            final(self).pending == old(self).pending,
            final(self).accepting == old(self).accepting,
    {
        self.busy = false;
    }

    /// Graceful shutdown: no new work is accepted; anything already
    /// pending or in flight is left to run to completion.
    pub fn shutdown(&mut self)
        ensures
            !final(self).accepting,
            final(self).pending == old(self).pending,
            final(self).busy == old(self).busy,
    {
        self.accepting = false;
    }
}

/// State after a burst of submissions with no intervening worker
/// activity, and how many of them were accepted.
pub open spec fn submit_burst(q: QueuePolicy, requests: Seq<CompilationRequest>) -> (QueuePolicy, nat)
    decreases requests.len(),
{
    if requests.len() == 0 {
        (q, 0)
    } else {
        let accepted = submit_accepts(q);
        let q1 = if accepted {
            QueuePolicy { pending: Some(requests[0]), ..q }
        } else {
            q
        };
        let (q2, n) = submit_burst(q1, requests.skip(1));
        (q2, n + if accepted { 1nat } else { 0nat })
    }
}

/// Single-flight law: however many requests are fired while the
/// worker never comes round, at most one of them is accepted — and
/// none at all while an earlier request is still pending.
pub proof fn lemma_single_flight(q: QueuePolicy, requests: Seq<CompilationRequest>)
    ensures
        submit_burst(q, requests).1 <= 1,
        q.pending is Some ==> submit_burst(q, requests).1 == 0,
        !q.accepting ==> submit_burst(q, requests).1 == 0,
    decreases requests.len(),
{
    if requests.len() == 0 {
    } else {
        let accepted = submit_accepts(q);
        let q1 = if accepted {
            QueuePolicy { pending: Some(requests[0]), ..q }
        } else {
            q
        };
        lemma_single_flight(q1, requests.skip(1));
    }
}

} // verus!
