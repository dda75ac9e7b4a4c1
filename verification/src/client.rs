//! The action-client facade: owns the correlation tables, the goal status
//! store and the feedback/result routers, and exposes the message-handling
//! entry points the hosting dispatch loop invokes. Generic over the goal
//! acceptance response `R`, the feedback payload `F` and the terminal result
//! payload `G` of the action type in use.

use vstd::prelude::*;
use crate::goal_id::{GoalId, goal_of_bytes, goal_id_from_bytes};
use crate::status::{GoalStatus, status_of_code};
use crate::table::{
    contains_goal, distinct_keys, has_key, key_index, lemma_remove_entry, register,
    register_goal, remove_entry, resolve, resolve_goal, value_of,
};

verus! {

/// A protocol violation on an inbound message: the message is malformed or
/// the protocol version mismatched, and continuing would corrupt state.
#[derive(Clone, Copy, PartialEq, Eq, Structural, Debug)]
pub enum ProtocolError {
    /// A goal identifier on the wire was not 16 bytes long.
    InvalidGoalIdLength,
    /// A status code on the wire was outside 0..=6.
    InvalidStatusCode,
    /// A cancel outcome code on the wire was outside 0..=3.
    InvalidCancelCode,
}

/// Typed outcome of a cancel request, decoded from the numeric outcome code
/// of the cancel response.
#[derive(Clone, Copy, PartialEq, Eq, Structural, Debug)]
pub enum CancelOutcome {
    /// Code 0: the server accepted the cancellation.
    Accepted,
    /// Code 1: the server rejected the cancellation.
    Rejected,
    /// Code 2: the server does not know the goal.
    UnknownGoalId,
    /// Code 3: the goal had already reached a terminal state.
    AlreadyTerminated,
}

/// The cancel outcome a valid code decodes to.
pub open spec fn cancel_outcome_of_code(c: int) -> CancelOutcome {
    if c == 0 {
        CancelOutcome::Accepted
    } else if c == 1 {
        CancelOutcome::Rejected
    } else if c == 2 {
        CancelOutcome::UnknownGoalId
    } else {
        CancelOutcome::AlreadyTerminated
    }
}

impl CancelOutcome {
    /// Decodes a cancel outcome code; any code outside 0..=3 is a protocol
    /// violation and yields `None`.
    pub fn try_from_code(c: i8) -> (r: Option<Self>)
        ensures
            0 <= c <= 3 ==> r == Some(cancel_outcome_of_code(c as int)),
            !(0 <= c <= 3) ==> r is None,
    {
        match c {
            0 => Some(CancelOutcome::Accepted),
            1 => Some(CancelOutcome::Rejected),
            2 => Some(CancelOutcome::UnknownGoalId),
            3 => Some(CancelOutcome::AlreadyTerminated),
            _ => None,
        }
    }
}

/// What handling a goal-acceptance response did.
#[derive(Clone, Copy, PartialEq, Eq, Structural, Debug)]
pub enum GoalResponseOutcome {
    /// No pending entry matched the correlation id: the message is presumed
    /// stale or from an unrelated client instance, and is discarded.
    UnknownRequest,
    /// The matched sink accepted the response.
    Delivered,
    /// The matched sink's consumer was already gone; the response is
    /// swallowed.
    ConsumerGone,
}

/// What handling a cancel response did.
#[derive(Clone, Copy, PartialEq, Eq, Structural, Debug)]
pub enum CancelResponseOutcome {
    /// No pending entry matched the correlation id; the message is discarded.
    UnknownRequest,
    /// The matching pending entry was resolved with this typed outcome.
    Resolved(CancelOutcome),
}

/// What handling a feedback message did.
#[derive(Clone, Copy, PartialEq, Eq, Structural, Debug)]
pub enum FeedbackOutcome {
    /// No streaming sink is registered for the goal; the message is
    /// discarded silently (the expected steady state for unobserved goals).
    NoSink,
    /// The payload was pushed into the goal's streaming sink.
    Delivered,
    /// The sink was full or its consumer gone; the payload is dropped
    /// rather than ever blocking the dispatch path.
    Dropped,
}

/// What handling a result response did.
#[derive(Clone, Copy, PartialEq, Eq, Structural, Debug)]
pub enum ResultResponseOutcome {
    /// No pending result request matched the correlation id; the message is
    /// discarded.
    UnknownRequest,
    /// The request matched, but no result sink is registered for its goal.
    NoSink,
    /// The terminal status was not `Succeeded`: the sink is dropped
    /// unresolved, signaling failure to whoever awaits it.
    DroppedNonSuccess,
    /// The terminal status was `Succeeded` and the payload was delivered.
    Delivered,
    /// The terminal status was `Succeeded` but the sink's consumer was
    /// already gone; the payload is swallowed.
    ConsumerGone,
}

/// A status batch entry is well-formed: a 16-byte goal identifier and a
/// status code in 0..=6.
pub open spec fn entry_ok(e: (Vec<u8>, i8)) -> bool {
    e.0@.len() == 16 && 0 <= e.1 <= 6
}

/// The first protocol violation in a status batch, scanned in order, if any.
pub open spec fn batch_check(b: Seq<(Vec<u8>, i8)>) -> Option<ProtocolError>
    decreases b.len(),
{
    if b.len() == 0 {
        None
    } else if b[0].0@.len() != 16 {
        Some(ProtocolError::InvalidGoalIdLength)
    } else if !(0 <= b[0].1 <= 6) {
        Some(ProtocolError::InvalidStatusCode)
    } else {
        batch_check(b.drop_first())
    }
}

/// Whether the batch carries an entry for goal `g`.
pub open spec fn in_batch(b: Seq<(Vec<u8>, i8)>, g: GoalId) -> bool {
    exists|i: int| 0 <= i < b.len() && goal_of_bytes(b[i].0@) == g
}

/// The status that the last batch entry for `g` decodes to: a batch is
/// applied in order, so a later entry for the same goal wins.
pub open spec fn last_status_in(b: Seq<(Vec<u8>, i8)>, g: GoalId) -> GoalStatus
    decreases b.len(),
{
    if b.len() == 0 {
        GoalStatus::Unknown
    } else if goal_of_bytes(b.last().0@) == g {
        status_of_code(b.last().1 as int)
    } else {
        last_status_in(b.drop_last(), g)
    }
}

/// Extending the scanned prefix by one entry reaches exactly the goals it
/// reached before, plus the new entry's goal.
pub proof fn lemma_in_batch_step(b: Seq<(Vec<u8>, i8)>, i: int, g: GoalId)
    requires
        0 <= i < b.len(),
    ensures
        in_batch(b.take(i + 1), g) <==> (in_batch(b.take(i), g) || goal_of_bytes(b[i].0@) == g),
{
    let t1 = b.take(i + 1);
    let t0 = b.take(i);
    if in_batch(t1, g) {
        let j = choose|j: int| 0 <= j < t1.len() && goal_of_bytes(t1[j].0@) == g;
        if j < i {
            assert(t0[j] == b[j]);
            assert(goal_of_bytes(t0[j].0@) == g);
            assert(in_batch(t0, g));
        } else {
            assert(t1[j] == b[i]);
        }
    }
    if in_batch(t0, g) {
        let j = choose|j: int| 0 <= j < t0.len() && goal_of_bytes(t0[j].0@) == g;
        assert(t1[j] == b[j]);
        assert(goal_of_bytes(t1[j].0@) == g);
        assert(in_batch(t1, g));
    }
    if goal_of_bytes(b[i].0@) == g {
        assert(t1[i] == b[i]);
        assert(in_batch(t1, g));
    }
}

/// Extending the scanned prefix by one entry overrides the last status of
/// that entry's goal and keeps every other goal's last status.
pub proof fn lemma_last_status_step(b: Seq<(Vec<u8>, i8)>, i: int, g: GoalId)
    requires
        0 <= i < b.len(),
    ensures
        goal_of_bytes(b[i].0@) == g ==> last_status_in(b.take(i + 1), g) == status_of_code(
            b[i].1 as int,
        ),
        goal_of_bytes(b[i].0@) != g ==> last_status_in(b.take(i + 1), g) == last_status_in(
            b.take(i),
            g,
        ),
{
    let t1 = b.take(i + 1);
    assert(t1.last() == b[i]);
    assert(t1.drop_last() =~= b.take(i));
}

/// The last-known lifecycle state recorded for a goal, `Unknown` for any
/// goal without an entry.
pub open spec fn status_of(s: Seq<(GoalId, GoalStatus)>, g: GoalId) -> GoalStatus {
    if has_key(s, g) {
        value_of(s, g)
    } else {
        GoalStatus::Unknown
    }
}

/// Client-side state of the action protocol for one action server: three
/// correlation tables for outstanding requests, the per-goal status store,
/// and the feedback and result routers.
#[verifier::reject_recursive_types(R)]
#[verifier::reject_recursive_types(F)]
#[verifier::reject_recursive_types(G)]
pub struct WrappedActionClient<R, F, G> {
    /// Pending goal-submit requests awaiting their acceptance response.
    pub goal_response_channels: Vec<(i64, futures::channel::oneshot::Sender<R>)>,
    /// Pending cancel requests awaiting their outcome.
    pub cancel_response_channels: Vec<(i64, futures::channel::oneshot::Sender<CancelOutcome>)>,
    /// Streaming sinks for goals whose feedback someone observes.
    pub feedback_senders: Vec<(GoalId, futures::channel::mpsc::Sender<F>)>,
    /// Pending result requests, joined to their goal on response.
    pub result_requests: Vec<(i64, GoalId)>,
    /// One-shot sinks awaiting a goal's terminal payload.
    pub result_senders: Vec<(GoalId, futures::channel::oneshot::Sender<G>)>,
    /// Last-known lifecycle state, tracked only for goals with a result sink.
    pub goal_status: Vec<(GoalId, GoalStatus)>,
}

impl<R, F, G> WrappedActionClient<R, F, G> {
    /// Every table holds at most one entry per key.
    pub open spec fn wf(self) -> bool {
        &&& distinct_keys(self.goal_response_channels@)
        &&& distinct_keys(self.cancel_response_channels@)
        &&& distinct_keys(self.feedback_senders@)
        &&& distinct_keys(self.result_requests@)
        &&& distinct_keys(self.result_senders@)
        &&& distinct_keys(self.goal_status@)
    }

    /// A fresh client with nothing in flight.
    pub fn new() -> (r: Self)
        ensures
            r.wf(),
            r.goal_response_channels@.len() == 0,
            r.cancel_response_channels@.len() == 0,
            r.feedback_senders@.len() == 0,
            r.result_requests@.len() == 0,
            r.result_senders@.len() == 0,
            r.goal_status@.len() == 0,
    {
        WrappedActionClient {
            goal_response_channels: Vec::new(),
            cancel_response_channels: Vec::new(),
            feedback_senders: Vec::new(),
            result_requests: Vec::new(),
            result_senders: Vec::new(),
            goal_status: Vec::new(),
        }
    }

    /// Wires the one-shot sink for a submitted goal's acceptance response
    /// under the correlation id the transport assigned to the submission.
    pub fn register_goal_request(
        &mut self,
        seq: i64,
        sender: futures::channel::oneshot::Sender<R>,
    )
        requires
            old(self).wf(),
            !has_key(old(self).goal_response_channels@, seq),
        ensures
            final(self).wf(),
            final(self).goal_response_channels@ == old(self).goal_response_channels@.push(
                (seq, sender),
            ),
            final(self).cancel_response_channels == old(self).cancel_response_channels,
            final(self).feedback_senders == old(self).feedback_senders,
            final(self).result_requests == old(self).result_requests,
            final(self).result_senders == old(self).result_senders,
            final(self).goal_status == old(self).goal_status,
    {
        register(&mut self.goal_response_channels, seq, sender);
    }

    /// Wires the one-shot sink for a cancel request's outcome under the
    /// correlation id the transport assigned to the cancel request. On a
    /// transport send failure no entry is created and this is never called.
    pub fn register_cancel_request(
        &mut self,
        seq: i64,
        sender: futures::channel::oneshot::Sender<CancelOutcome>,
    )
        requires
            old(self).wf(),
            !has_key(old(self).cancel_response_channels@, seq),
        ensures
            final(self).wf(),
            final(self).cancel_response_channels@ == old(self).cancel_response_channels@.push(
                (seq, sender),
            ),
            final(self).goal_response_channels == old(self).goal_response_channels,
            final(self).feedback_senders == old(self).feedback_senders,
            final(self).result_requests == old(self).result_requests,
            final(self).result_senders == old(self).result_senders,
            final(self).goal_status == old(self).goal_status,
    {
        register(&mut self.cancel_response_channels, seq, sender);
    }

    /// Records that a result request for `goal` is outstanding under the
    /// correlation id the transport assigned to it; the eventual response is
    /// joined back to the goal through this entry.
    pub fn register_result_request(&mut self, seq: i64, goal: GoalId)
        requires
            old(self).wf(),
            !has_key(old(self).result_requests@, seq),
        ensures
            final(self).wf(),
            final(self).result_requests@ == old(self).result_requests@.push((seq, goal)),
            final(self).goal_response_channels == old(self).goal_response_channels,
            final(self).cancel_response_channels == old(self).cancel_response_channels,
            final(self).feedback_senders == old(self).feedback_senders,
            final(self).result_senders == old(self).result_senders,
            final(self).goal_status == old(self).goal_status,
    {
        register(&mut self.result_requests, seq, goal);
    }

    /// Registers interest in a goal's feedback stream.
    pub fn register_feedback_sender(
        &mut self,
        goal: GoalId,
        sender: futures::channel::mpsc::Sender<F>,
    )
        requires
            old(self).wf(),
            !has_key(old(self).feedback_senders@, goal),
        ensures
            final(self).wf(),
            final(self).feedback_senders@ == old(self).feedback_senders@.push((goal, sender)),
            final(self).goal_response_channels == old(self).goal_response_channels,
            final(self).cancel_response_channels == old(self).cancel_response_channels,
            final(self).result_requests == old(self).result_requests,
            final(self).result_senders == old(self).result_senders,
            final(self).goal_status == old(self).goal_status,
    {
        register_goal(&mut self.feedback_senders, goal, sender);
    }

    /// Registers the one-shot sink awaiting a goal's terminal payload.
    pub fn register_result_sender(
        &mut self,
        goal: GoalId,
        sender: futures::channel::oneshot::Sender<G>,
    )
        requires
            old(self).wf(),
            !has_key(old(self).result_senders@, goal),
        ensures
            final(self).wf(),
            final(self).result_senders@ == old(self).result_senders@.push((goal, sender)),
            final(self).goal_response_channels == old(self).goal_response_channels,
            final(self).cancel_response_channels == old(self).cancel_response_channels,
            final(self).feedback_senders == old(self).feedback_senders,
            final(self).result_requests == old(self).result_requests,
            final(self).goal_status == old(self).goal_status,
    {
        register_goal(&mut self.result_senders, goal, sender);
    }

    /// Last-known lifecycle state of a goal, `Unknown` for any goal no
    /// status broadcast has been recorded for.
    pub fn get_goal_status(&self, goal: &GoalId) -> (r: GoalStatus)
        requires
            self.wf(),
        ensures
            r == status_of(self.goal_status@, *goal),
    {
        let n = self.goal_status.len();
        let mut i: usize = 0;
        while i < n
            invariant
                n == self.goal_status@.len(),
                0 <= i <= n,
                distinct_keys(self.goal_status@),
                forall|j: int| 0 <= j < i ==> self.goal_status@[j].0 != *goal,
            decreases n - i,
        {
            let entry = &self.goal_status[i];
            if entry.0.val == goal.val {
                assert(self.goal_status@[i as int].0 == *goal);
                assert(has_key(self.goal_status@, *goal));
                proof {
                    let j = key_index(self.goal_status@, *goal);
                    if j != i {
                        assert(self.goal_status@[j].0 == self.goal_status@[i as int].0);
                    }
                }
                return entry.1;
            }
            i = i + 1;
        }
        assert(!has_key(self.goal_status@, *goal));
        GoalStatus::Unknown
    }

    /// Delivers a goal-acceptance response to the pending entry matching its
    /// correlation id, removing the entry; with no matching entry the
    /// message is discarded and every table is left untouched.
    pub fn handle_goal_response(&mut self, seq: i64, response: R) -> (r: GoalResponseOutcome)
        requires
            old(self).wf(),
        ensures
            final(self).wf(),
            final(self).goal_response_channels@ == remove_entry(
                old(self).goal_response_channels@,
                seq,
            ),
            r is UnknownRequest <==> !has_key(old(self).goal_response_channels@, seq),
            final(self).cancel_response_channels == old(self).cancel_response_channels,
            final(self).feedback_senders == old(self).feedback_senders,
            final(self).result_requests == old(self).result_requests,
            final(self).result_senders == old(self).result_senders,
            final(self).goal_status == old(self).goal_status,
    {
        match resolve(&mut self.goal_response_channels, seq) {
            None => GoalResponseOutcome::UnknownRequest,
            Some(sender) => match sender.send(response) {
                Ok(()) => GoalResponseOutcome::Delivered,
                Err(_) => GoalResponseOutcome::ConsumerGone,
            },
        }
    }

    /// Resolves the pending cancel entry matching the correlation id with
    /// the typed outcome its numeric code maps to: 0 accepted, 1 rejected,
    /// 2 unknown goal, 3 already terminated. Any other code is a protocol
    /// violation; the matched entry is then dropped unresolved. With no
    /// matching entry the message is discarded, the code unexamined.
    pub fn handle_cancel_response(&mut self, seq: i64, return_code: i8) -> (r: Result<
        CancelResponseOutcome,
        ProtocolError,
    >)
        requires
            old(self).wf(),
        ensures
            final(self).wf(),
            final(self).cancel_response_channels@ == remove_entry(
                old(self).cancel_response_channels@,
                seq,
            ),
            !has_key(old(self).cancel_response_channels@, seq) ==> r == Ok::<
                CancelResponseOutcome,
                ProtocolError,
            >(CancelResponseOutcome::UnknownRequest),
            has_key(old(self).cancel_response_channels@, seq) && 0 <= return_code <= 3 ==> r
                == Ok::<CancelResponseOutcome, ProtocolError>(CancelResponseOutcome::Resolved(
                cancel_outcome_of_code(return_code as int),
            )),
            has_key(old(self).cancel_response_channels@, seq) && !(0 <= return_code <= 3) ==> r
                == Err::<CancelResponseOutcome, ProtocolError>(ProtocolError::InvalidCancelCode),
            final(self).goal_response_channels == old(self).goal_response_channels,
            final(self).feedback_senders == old(self).feedback_senders,
            final(self).result_requests == old(self).result_requests,
            final(self).result_senders == old(self).result_senders,
            final(self).goal_status == old(self).goal_status,
    {
        match resolve(&mut self.cancel_response_channels, seq) {
            None => Ok(CancelResponseOutcome::UnknownRequest),
            Some(sender) => match CancelOutcome::try_from_code(return_code) {
                None => Err(ProtocolError::InvalidCancelCode),
                Some(outcome) => {
                    let _ = sender.send(outcome);
                    Ok(CancelResponseOutcome::Resolved(outcome))
                },
            },
        }
    }

    /// Routes a feedback payload to the streaming sink registered for its
    /// goal, by a non-blocking push: a full sink drops the payload rather
    /// than ever blocking the dispatch path. With no registered sink the
    /// payload is discarded silently. A goal identifier of the wrong length
    /// is a protocol violation and changes nothing.
    pub fn handle_feedback_msg(&mut self, goal_id: Vec<u8>, feedback: F) -> (r: Result<
        FeedbackOutcome,
        ProtocolError,
    >)
        requires
            old(self).wf(),
        ensures
            final(self).wf(),
            goal_id@.len() != 16 ==> r == Err::<FeedbackOutcome, ProtocolError>(
                ProtocolError::InvalidGoalIdLength,
            ) && final(self).feedback_senders == old(self).feedback_senders,
            goal_id@.len() == 16 ==> r is Ok,
            goal_id@.len() == 16 ==> (r == Ok::<FeedbackOutcome, ProtocolError>(
                FeedbackOutcome::NoSink,
            ) <==> !has_key(old(self).feedback_senders@, goal_of_bytes(goal_id@))),
            forall|g2: GoalId|
                has_key(final(self).feedback_senders@, g2) <==> has_key(
                    old(self).feedback_senders@,
                    g2,
                ),
            forall|p: (GoalId, futures::channel::mpsc::Sender<F>)|
                p.0 != goal_of_bytes(goal_id@) ==> (final(self).feedback_senders@.contains(p)
                    <==> old(self).feedback_senders@.contains(p)),
            final(self).goal_response_channels == old(self).goal_response_channels,
            final(self).cancel_response_channels == old(self).cancel_response_channels,
            final(self).result_requests == old(self).result_requests,
            final(self).result_senders == old(self).result_senders,
            final(self).goal_status == old(self).goal_status,
    {
        if goal_id.len() != 16 {
            return Err(ProtocolError::InvalidGoalIdLength);
        }
        let goal = match goal_id_from_bytes(goal_id) {
            Some(g) => g,
            None => {
                return Err(ProtocolError::InvalidGoalIdLength);
            },
        };
        match resolve_goal(&mut self.feedback_senders, goal) {
            None => Ok(FeedbackOutcome::NoSink),
            Some(mut sender) => {
                proof {
                    lemma_remove_entry(old(self).feedback_senders@, goal);
                }
                let pushed = sender.try_send(feedback);
                let delivered = pushed.is_ok();
                register_goal(&mut self.feedback_senders, goal, sender);
                proof {
                    crate::table::lemma_push_entry(
                        remove_entry(old(self).feedback_senders@, goal),
                        goal,
                        sender,
                    );
                }
                if delivered {
                    Ok(FeedbackOutcome::Delivered)
                } else {
                    Ok(FeedbackOutcome::Dropped)
                }
            },
        }
    }

    /// Records a status broadcast: a batch of (goal identifier, status code)
    /// pairs for all goals the server currently knows. A pair whose goal has
    /// no registered result sink is skipped, which bounds the store to goals
    /// the client actually tracks; every other pair upserts the goal's
    /// last-known status, later pairs overriding earlier ones. A malformed
    /// pair (wrong identifier length, or a status code outside 0..=6) is a
    /// protocol violation: the whole batch is rejected and nothing changes.
    pub fn handle_status_msg(&mut self, statuses: Vec<(Vec<u8>, i8)>) -> (r: Result<
        (),
        ProtocolError,
    >)
        requires
            old(self).wf(),
        ensures
            final(self).wf(),
            r is Ok <==> batch_check(statuses@) is None,
            r matches Err(e) ==> Some(e) == batch_check(statuses@) && final(self).goal_status
                == old(self).goal_status,
            r is Ok ==> forall|g: GoalId|
                has_key(final(self).goal_status@, g) <==> (has_key(old(self).goal_status@, g) || (
                in_batch(statuses@, g) && has_key(old(self).result_senders@, g))),
            r is Ok ==> forall|g: GoalId|
                in_batch(statuses@, g) && has_key(old(self).result_senders@, g) ==> has_key(
                    final(self).goal_status@,
                    g,
                ) && value_of(final(self).goal_status@, g) == last_status_in(statuses@, g),
            r is Ok ==> forall|g: GoalId|
                !(in_batch(statuses@, g) && has_key(old(self).result_senders@, g)) && has_key(
                    old(self).goal_status@,
                    g,
                ) ==> value_of(final(self).goal_status@, g) == value_of(old(self).goal_status@, g),
            final(self).goal_response_channels == old(self).goal_response_channels,
            final(self).cancel_response_channels == old(self).cancel_response_channels,
            final(self).feedback_senders == old(self).feedback_senders,
            final(self).result_requests == old(self).result_requests,
            final(self).result_senders == old(self).result_senders,
    {
        let n = statuses.len();
        proof {
            assert(statuses@.skip(0) =~= statuses@);
        }
        let mut i: usize = 0;
        while i < n
            invariant
                n == statuses@.len(),
                0 <= i <= n,
                old(self).wf(),
                *self == *old(self),
                batch_check(statuses@) == batch_check(statuses@.skip(i as int)),
                forall|j: int| 0 <= j < i ==> entry_ok(statuses@[j]),
            decreases n - i,
        {
            proof {
                assert(statuses@.skip(i as int)[0] == statuses@[i as int]);
                assert(statuses@.skip(i as int).drop_first() =~= statuses@.skip(i as int + 1));
            }
            let e = &statuses[i];
            if e.0.len() != 16 {
                return Err(ProtocolError::InvalidGoalIdLength);
            }
            if e.1 < 0 || e.1 > 6 {
                return Err(ProtocolError::InvalidStatusCode);
            }
            i = i + 1;
        }
        proof {
            assert(statuses@.skip(n as int) =~= Seq::<(Vec<u8>, i8)>::empty());
        }
        let ghost b = statuses@;
        let ghost old_store = self.goal_status@;
        let ghost sinks = self.result_senders@;
        i = 0;
        while i < n
            invariant
                n == b.len(),
                statuses@ == b,
                0 <= i <= n,
                forall|j: int| 0 <= j < n ==> entry_ok(b[j]),
                old(self).wf(),
                self.result_senders@ == sinks,
                distinct_keys(self.goal_status@),
                self.goal_response_channels == old(self).goal_response_channels,
                self.cancel_response_channels == old(self).cancel_response_channels,
                self.feedback_senders == old(self).feedback_senders,
                self.result_requests == old(self).result_requests,
                self.result_senders == old(self).result_senders,
                old_store == old(self).goal_status@,
                forall|g: GoalId|
                    has_key(self.goal_status@, g) <==> (has_key(old_store, g) || (in_batch(
                        b.take(i as int),
                        g,
                    ) && has_key(sinks, g))),
                forall|g: GoalId|
                    in_batch(b.take(i as int), g) && has_key(sinks, g) ==> has_key(
                        self.goal_status@,
                        g,
                    ) && value_of(self.goal_status@, g) == last_status_in(b.take(i as int), g),
                forall|g: GoalId|
                    !(in_batch(b.take(i as int), g) && has_key(sinks, g)) && has_key(old_store, g)
                        ==> value_of(self.goal_status@, g) == value_of(old_store, g),
            decreases n - i,
        {
            let e = &statuses[i];
            let bytes = crate::goal_id::copy_bytes(&e.0);
            // the batch was validated above, so the identifier is 16 bytes
            // and the decode cannot miss; the second arm is unreachable
            let goal = match goal_id_from_bytes(bytes) {
                Some(g) => g,
                None => GoalId { val: 0 },
            };
            assert(goal == goal_of_bytes(b[i as int].0@));
            let code = e.1;
            let st = GoalStatus::from_rcl(code);
            let ghost store0 = self.goal_status@;
            let sink_present = contains_goal(&self.result_senders, goal);
            if sink_present {
                proof {
                    if has_key(store0, goal) {
                        lemma_remove_entry(store0, goal);
                    }
                }
                let _prev = resolve_goal(&mut self.goal_status, goal);
                register_goal(&mut self.goal_status, goal, st);
            }
            proof {
                let t1 = b.take(i as int + 1);
                let t0 = b.take(i as int);
                assert forall|g: GoalId|
                    has_key(self.goal_status@, g) <==> (has_key(old_store, g) || (in_batch(t1, g)
                        && has_key(sinks, g))) by {
                    lemma_in_batch_step(b, i as int, g);
                }
                assert forall|g: GoalId|
                    in_batch(t1, g) && has_key(sinks, g) implies has_key(self.goal_status@, g)
                    && value_of(self.goal_status@, g) == last_status_in(t1, g) by {
                    lemma_in_batch_step(b, i as int, g);
                    lemma_last_status_step(b, i as int, g);
                }
                assert forall|g: GoalId|
                    !(in_batch(t1, g) && has_key(sinks, g)) && has_key(old_store, g) implies
                    value_of(self.goal_status@, g) == value_of(old_store, g) by {
                    lemma_in_batch_step(b, i as int, g);
                }
            }
            i = i + 1;
        }
        proof {
            assert(b.take(n as int) =~= b);
        }
        Ok(())
    }

    /// Joins a result response back to its goal through the pending result
    /// request matching the correlation id, removes the goal's result sink,
    /// and resolves it with the payload exactly when the decoded terminal
    /// status is `Succeeded`; for any other status the sink is dropped
    /// unresolved, signaling failure to whoever awaits it. An unknown
    /// correlation id discards the message, the status code unexamined.
    pub fn handle_result_response(&mut self, seq: i64, status_code: i8, result: G) -> (r: Result<
        ResultResponseOutcome,
        ProtocolError,
    >)
        requires
            old(self).wf(),
        ensures
            final(self).wf(),
            final(self).result_requests@ == remove_entry(old(self).result_requests@, seq),
            !has_key(old(self).result_requests@, seq) ==> r == Ok::<
                ResultResponseOutcome,
                ProtocolError,
            >(ResultResponseOutcome::UnknownRequest) && final(self).result_senders == old(
                self,
            ).result_senders,
            has_key(old(self).result_requests@, seq) ==> final(self).result_senders@
                == remove_entry(
                old(self).result_senders@,
                value_of(old(self).result_requests@, seq),
            ),
            has_key(old(self).result_requests@, seq) && !has_key(
                old(self).result_senders@,
                value_of(old(self).result_requests@, seq),
            ) ==> r == Ok::<ResultResponseOutcome, ProtocolError>(ResultResponseOutcome::NoSink),
            has_key(old(self).result_requests@, seq) && has_key(
                old(self).result_senders@,
                value_of(old(self).result_requests@, seq),
            ) && !(0 <= status_code <= 6) ==> r == Err::<ResultResponseOutcome, ProtocolError>(
                ProtocolError::InvalidStatusCode,
            ),
            has_key(old(self).result_requests@, seq) && has_key(
                old(self).result_senders@,
                value_of(old(self).result_requests@, seq),
            ) && 0 <= status_code <= 6 && status_of_code(status_code as int)
                == GoalStatus::Succeeded ==> (r == Ok::<ResultResponseOutcome, ProtocolError>(
                ResultResponseOutcome::Delivered,
            ) || r == Ok::<ResultResponseOutcome, ProtocolError>(
                ResultResponseOutcome::ConsumerGone,
            )),
            has_key(old(self).result_requests@, seq) && has_key(
                old(self).result_senders@,
                value_of(old(self).result_requests@, seq),
            ) && 0 <= status_code <= 6 && status_of_code(status_code as int)
                != GoalStatus::Succeeded ==> r == Ok::<ResultResponseOutcome, ProtocolError>(
                ResultResponseOutcome::DroppedNonSuccess,
            ),
            final(self).goal_response_channels == old(self).goal_response_channels,
            final(self).cancel_response_channels == old(self).cancel_response_channels,
            final(self).feedback_senders == old(self).feedback_senders,
            final(self).goal_status == old(self).goal_status,
    {
        match resolve(&mut self.result_requests, seq) {
            None => Ok(ResultResponseOutcome::UnknownRequest),
            Some(goal) => {
                match resolve_goal(&mut self.result_senders, goal) {
                    None => Ok(ResultResponseOutcome::NoSink),
                    Some(sender) => {
                        match GoalStatus::try_from_rcl(status_code) {
                            None => Err(ProtocolError::InvalidStatusCode),
                            Some(status) => {
                                if status == GoalStatus::Succeeded {
                                    match sender.send(result) {
                                        Ok(()) => Ok(ResultResponseOutcome::Delivered),
                                        Err(_) => Ok(ResultResponseOutcome::ConsumerGone),
                                    }
                                } else {
                                    Ok(ResultResponseOutcome::DroppedNonSuccess)
                                }
                            },
                        }
                    },
                }
            },
        }
    }
}

} // verus!
