//! Threaded database executor: a bounded work queue drained by one
//! dedicated worker, with a ticketed reply for each accepted request.
//!
//! The surrounding runtime owns the channel and the worker thread; this
//! module owns the decisions: which submissions are accepted (the queue is
//! bounded at 100 items), the order the worker serves them in (strict
//! submission order), and the pairing of every reply with the submission
//! that produced it. Each accepted request gets a ticket no other request
//! of this executor ever gets, the worker stamps its reply with the same
//! ticket, and a reply can be claimed only with its own ticket, so no
//! caller can receive another caller's result.

use vstd::prelude::*;

use crate::database::{DbError, ParamValue};

verus! {

/// The queue's capacity: a full queue makes the sender wait, providing
/// backpressure.
pub const QUEUE_CAPACITY: usize = 100;

/// One unit of work: the submission's ticket and the request it carries.
pub struct WorkItem {
    pub ticket: u64,
    pub statement: String,
    pub params: Vec<ParamValue>,
}

/// The reply the worker pushes back for one work item, stamped with that
/// item's ticket.
pub struct WorkReply<R> {
    pub ticket: u64,
    pub result: Result<Vec<R>, DbError>,
}

/// The threaded executor's verified state: the pending work items in
/// submission order, and the ticket the next submission will get.
pub struct ThreadedDbClient {
    pub queue: Vec<WorkItem>,
    pub next_ticket: u64,
}

/// What an accepted or refused submission leaves behind.
pub open spec fn submit_post(
    pre: ThreadedDbClient,
    post: ThreadedDbClient,
    r: Option<u64>,
    statement: String,
    params: Vec<ParamValue>,
) -> bool {
    if pre.queue@.len() < QUEUE_CAPACITY {
        &&& r == Some(pre.next_ticket)
        &&& post.next_ticket == pre.next_ticket + 1
        &&& post.queue@ == pre.queue@.push(
            WorkItem { ticket: pre.next_ticket, statement, params },
        )
    } else {
        r is None && post == pre
    }
}

impl ThreadedDbClient {
    /// Every queued ticket was issued earlier than the next one, and no
    /// ticket repeats.
    pub open spec fn wf(self) -> bool {
        &&& forall|i: int|
            0 <= i < self.queue@.len() ==> (#[trigger] self.queue@[i]).ticket < self.next_ticket
        &&& forall|i: int, j: int|
            0 <= i < j < self.queue@.len() ==> self.queue@[i].ticket != self.queue@[j].ticket
    }

    pub fn new() -> (r: ThreadedDbClient)
        ensures
            r.wf(),
            r.queue@.len() == 0,
            r.next_ticket == 0,
    {
        ThreadedDbClient { queue: Vec::new(), next_ticket: 0 }
    }

    /// Submit a request. An accepted submission is appended behind every
    /// earlier one and gets a fresh ticket; a full queue accepts nothing,
    /// and the caller waits and resubmits — that is the backpressure of the
    /// bounded channel.
    pub fn submit(&mut self, statement: String, params: Vec<ParamValue>) -> (r: Option<u64>)
        requires
            old(self).wf(),
            old(self).next_ticket < u64::MAX,
        ensures
            final(self).wf(),
            submit_post(*old(self), *final(self), r, statement, params),
    {
        if self.queue.len() < QUEUE_CAPACITY {
            let ticket = self.next_ticket;
            let ghost q0 = self.queue@;
            self.queue.push(WorkItem { ticket, statement, params });
            self.next_ticket = self.next_ticket + 1;
            proof {
                assert forall|i: int, j: int|
                    0 <= i < j < self.queue@.len() implies self.queue@[i].ticket
                    != self.queue@[j].ticket by {
                    if j == self.queue@.len() - 1 {
                        assert(self.queue@[i] == q0[i]);
                    }
                }
            }
            Some(ticket)
        } else {
            None
        }
    }

    /// The worker takes the oldest pending item: requests are served in
    /// strict submission order, one at a time.
    pub fn take_next(&mut self) -> (r: Option<WorkItem>)
        requires
            old(self).wf(),
        ensures
            final(self).wf(),
            final(self).next_ticket == old(self).next_ticket,
            match r {
                Some(item) => old(self).queue@.len() > 0 && item == old(self).queue@[0]
                    && final(self).queue@ == old(self).queue@.drop_first(),
                None => old(self).queue@.len() == 0 && final(self).queue@ == old(self).queue@,
            },
    {
        if self.queue.len() > 0 {
            let item = self.queue.remove(0);
            proof {
                assert(self.queue@ =~= old(self).queue@.drop_first());
            }
            Some(item)
        } else {
            None
        }
    }
}

/// The worker's reply for one item: the item's own ticket over the result
/// the pooled executor produced for it.
pub fn make_reply<R>(item: &WorkItem, result: Result<Vec<R>, DbError>) -> (r: WorkReply<R>)
    ensures
        r.ticket == item.ticket,
        r.result == result,
{
    WorkReply { ticket: item.ticket, result }
}

/// Recover a submission's own result from a reply. The reply's ticket must
/// be the caller's own: a mismatched pairing is a defect of the
/// request/reply plumbing, not a runtime condition, so it is excluded here
/// and the surrounding runtime treats it as fatal.
pub fn claim_reply<R>(ticket: u64, reply: WorkReply<R>) -> (r: Result<Vec<R>, DbError>)
    requires
        reply.ticket == ticket,
    ensures
        r == reply.result,
{
    reply.result
}

/// Law: under any interleaving of submissions, each caller's reply carries
/// its own result, never another caller's. Two accepted submissions get
/// distinct tickets, the queue holds both requests in submission order,
/// and a reply stamped for one ticket can never be claimed by the other.
pub proof fn lemma_exact_reply_pairing<R>(
    c0: ThreadedDbClient,
    c1: ThreadedDbClient,
    c2: ThreadedDbClient,
    t1: u64,
    t2: u64,
    s1: String,
    p1: Vec<ParamValue>,
    s2: String,
    p2: Vec<ParamValue>,
    reply1: WorkReply<R>,
    reply2: WorkReply<R>,
)
    requires
        c0.wf(),
        submit_post(c0, c1, Some(t1), s1, p1),
        submit_post(c1, c2, Some(t2), s2, p2),
        reply1.ticket == t1,
        reply2.ticket == t2,
    ensures
        t1 != t2,
        reply2.ticket != t1,
        reply1.ticket != t2,
        c2.queue@[c2.queue@.len() - 2] == (WorkItem { ticket: t1, statement: s1, params: p1 }),
        c2.queue@[c2.queue@.len() - 1] == (WorkItem { ticket: t2, statement: s2, params: p2 }),
{
    assert(c1.queue@.len() == c0.queue@.len() + 1);
    assert(c2.queue@[c2.queue@.len() - 2] == c1.queue@[c1.queue@.len() - 1]);
}

} // verus!
