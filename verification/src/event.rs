use vstd::prelude::*;

use crate::intercepted::InterceptedResponse;
use crate::stage::{Event, EventView, StageId};

verus! {

/// The event dispatcher: the pending event queue together with the
/// in-flight accounting that graceful shutdown waits on.
///
/// `emit` counts an event before it is queued and `complete` counts it
/// after its stage has returned, so `inflight` is always the number of
/// events emitted and not yet fully processed, and never smaller than the
/// queue length.
pub struct Dispatcher {
    queue: Vec<Event>,
    inflight: u64,
    emitted: u64,
    completed: u64,
    closed: bool,
}

impl Dispatcher {
    /// The dispatcher's bookkeeping invariant: the in-flight counter is the
    /// exact gap between emitted and completed events, and at least the
    /// queue length.
    pub closed spec fn wf(&self) -> bool {
        &&& self.completed <= self.emitted
        &&& self.inflight == self.emitted - self.completed
        &&& self.queue@.len() <= self.inflight
    }

    pub closed spec fn spec_queue(&self) -> Seq<EventView> {
        self.queue.deep_view()
    }

    pub closed spec fn spec_inflight(&self) -> u64 {
        self.inflight
    }

    pub closed spec fn spec_emitted(&self) -> u64 {
        self.emitted
    }

    pub closed spec fn spec_completed(&self) -> u64 {
        self.completed
    }

    pub closed spec fn spec_closed(&self) -> bool {
        self.closed
    }

    pub fn new() -> (r: Self)
        ensures
            r.wf(),
            r.spec_queue().len() == 0,
            r.spec_inflight() == 0,
            r.spec_emitted() == 0,
            r.spec_completed() == 0,
            !r.spec_closed(),
    {
        Dispatcher { queue: Vec::new(), inflight: 0, emitted: 0, completed: 0, closed: false }
    }

    /// Queues an event, counting it in-flight before it is enqueued.
    pub fn emit(&mut self, stage: StageId, resp: InterceptedResponse)
        requires
            old(self).wf(),
            !old(self).spec_closed(),
            old(self).spec_emitted() < u64::MAX,
        ensures
            final(self).wf(),
            final(self).spec_queue() == old(self).spec_queue().push(
                EventView { stage, resp: resp@ },
            ),
            final(self).spec_inflight() == old(self).spec_inflight() + 1,
            final(self).spec_emitted() == old(self).spec_emitted() + 1,
            final(self).spec_completed() == old(self).spec_completed(),
            final(self).spec_closed() == old(self).spec_closed(),
    {
        self.inflight = self.inflight + 1;
        self.emitted = self.emitted + 1;
        let ghost pre = self.queue.deep_view();
        self.queue.push(Event { stage, resp });
        proof {
            assert(self.queue.deep_view() =~= pre.push(EventView { stage, resp: resp@ }));
        }
    }

    /// Takes the oldest queued event, leaving it counted in-flight until
    /// `complete` is called for it.
    pub fn take_next(&mut self) -> (r: Option<Event>)
        requires
            old(self).wf(),
        ensures
            final(self).wf(),
            final(self).spec_inflight() == old(self).spec_inflight(),
            final(self).spec_emitted() == old(self).spec_emitted(),
            final(self).spec_completed() == old(self).spec_completed(),
            final(self).spec_closed() == old(self).spec_closed(),
            match r {
                Some(e) => old(self).spec_queue().len() > 0 && e@ == old(self).spec_queue()[0]
                    && final(self).spec_queue() == old(self).spec_queue().skip(1)
                    && final(self).spec_inflight() > final(self).spec_queue().len(),
                None => old(self).spec_queue().len() == 0
                    && final(self).spec_queue() == old(self).spec_queue(),
            },
    {
        if self.queue.len() == 0 {
            return None;
        }
        let ghost pre = self.queue.deep_view();
        let e = self.queue.remove(0);
        proof {
            assert(self.queue.deep_view() =~= pre.skip(1));
        }
        Some(e)
    }

    /// Counts one taken event as fully processed; called by the router
    /// after the receiving stage has returned.
    pub fn complete(&mut self)
        requires
            old(self).wf(),
            old(self).spec_inflight() > old(self).spec_queue().len(),
        ensures
            final(self).wf(),
            final(self).spec_queue() == old(self).spec_queue(),
            final(self).spec_inflight() == old(self).spec_inflight() - 1,
            final(self).spec_emitted() == old(self).spec_emitted(),
            final(self).spec_completed() == old(self).spec_completed() + 1,
            final(self).spec_closed() == old(self).spec_closed(),
    {
        self.inflight = self.inflight - 1;
        self.completed = self.completed + 1;
    }

    /// Closes the dispatcher once no event is in flight. On return the
    /// in-flight counter is zero and, the counters being balanced, every
    /// emitted event has been completed; no further stage call can occur,
    /// since `emit` demands an open dispatcher.
    pub fn close_gracefully(&mut self)
        requires
            old(self).wf(),
            old(self).spec_inflight() == 0,
        ensures
            final(self).wf(),
            final(self).spec_closed(),
            final(self).spec_inflight() == 0,
            final(self).spec_emitted() == final(self).spec_completed(),
            final(self).spec_queue() == old(self).spec_queue(),
            final(self).spec_emitted() == old(self).spec_emitted(),
            final(self).spec_completed() == old(self).spec_completed(),
    {
        self.closed = true;
    }

    pub fn pending(&self) -> (r: usize)
        ensures
            r == self.spec_queue().len(),
    {
        proof {
            assert(self.spec_queue().len() == self.queue@.len());
        }
        self.queue.len()
    }

    pub fn emitted_count(&self) -> (r: u64)
        ensures
            r == self.spec_emitted(),
    {
        self.emitted
    }

    pub fn completed_count(&self) -> (r: u64)
        ensures
            r == self.spec_completed(),
    {
        self.completed
    }

    /// Whether another event can still be counted.
    pub fn can_emit(&self) -> (r: bool)
        ensures
            r == (self.spec_emitted() < u64::MAX),
    {
        self.emitted < u64::MAX
    }

    pub fn inflight_count(&self) -> (r: u64)
        ensures
            r == self.spec_inflight(),
    {
        self.inflight
    }

    pub fn is_closed(&self) -> (r: bool)
        ensures
            r == self.spec_closed(),
    {
        self.closed
    }
}

/// What well-formedness means for the counters: the in-flight count is
/// the exact gap between emitted and completed events, and at least the
/// queue length.
pub proof fn lemma_wf_counters(d: Dispatcher)
    requires
        d.wf(),
    ensures
        d.spec_inflight() == d.spec_emitted() - d.spec_completed(),
        d.spec_queue().len() <= d.spec_inflight(),
{
}

/// Emit-then-complete balance: whenever no event is in flight, the number
/// of emitted events equals the number of completed ones.
pub proof fn lemma_emit_complete_balance(d: Dispatcher)
    requires
        d.wf(),
        d.spec_inflight() == 0,
    ensures
        d.spec_emitted() == d.spec_completed(),
{
}

} // verus!
