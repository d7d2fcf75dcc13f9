use vstd::prelude::*;
use crate::errors::ServiceError;
use crate::events::{Event, EventType};
use crate::models::{GroupUpdateMessage, IngestionMessage, IngestionMessageView};
use crate::retry::{
    read_group_error_to_queue, readd_error_to_queue, spec_bulk_bumped, spec_bulk_chunk_ids,
    spec_group_bumped, spec_update_bumped, RetryDecision, MAX_GROUP_UPDATE_ATTEMPTS,
    MAX_INGESTION_ATTEMPTS,
};

verus! {

/// One queue with its in-flight list, as a single worker observes
/// them.  Reliable reserve moves the job at the queue's tail to the
/// in-flight list's head; acknowledging removes it from in-flight;
/// re-enqueueing pushes to the queue's head, so the queue drains
/// first-in first-out.
pub struct QueueState<M> {
    pub queue: Vec<M>,
    pub in_flight: Vec<M>,
}

impl<M> QueueState<M> {
    /// An empty queue.
    pub fn new() -> (r: QueueState<M>)
        ensures
            r.queue@ == Seq::<M>::empty(),
            r.in_flight@ == Seq::<M>::empty(),
    {
        QueueState { queue: Vec::new(), in_flight: Vec::new() }
    }

    /// A producer pushes a job onto the queue's head.
    pub fn produce(&mut self, m: M)
        ensures
            final(self).queue@ == seq![m] + old(self).queue@,
            final(self).in_flight == old(self).in_flight,
    {
        self.queue.insert(0, m);
        proof {
            assert(self.queue@ =~= seq![self.queue@[0]] + old(self).queue@);
        }
    }

    /// How many jobs wait on the queue.
    pub fn depth(&self) -> (r: usize)
        ensures
            r == self.queue@.len(),
    {
        self.queue.len()
    }

    /// How many jobs sit on the in-flight list.
    pub fn in_flight_depth(&self) -> (r: usize)
        ensures
            r == self.in_flight@.len(),
    {
        self.in_flight.len()
    }

    /// Reliable pop: atomically moves the job at the queue's tail to
    /// the in-flight list's head.  Returns whether a job was reserved;
    /// an empty queue leaves everything unchanged (the blocking wait
    /// timed out).
    pub fn reserve(&mut self) -> (got: bool)
        ensures
            old(self).queue@.len() == 0 ==> !got && final(self).queue@ == old(self).queue@
                && final(self).in_flight == old(self).in_flight,
            old(self).queue@.len() > 0 ==> got
                && final(self).queue@ == old(self).queue@.drop_last()
                && final(self).in_flight@ == seq![old(self).queue@.last()]
                + old(self).in_flight@,
    {
        match self.queue.pop() {
            Some(m) => {
                self.in_flight.insert(0, m);
                proof {
                    assert(self.in_flight@ =~= seq![old(self).queue@.last()] + old(
                        self,
                    ).in_flight@);
                }
                true
            },
            None => false,
        }
    }

    /// Acknowledges the reserved job: removes it from the in-flight
    /// list.
    pub fn ack_front(&mut self) -> (m: M)
        requires
            old(self).in_flight@.len() > 0,
        ensures
            final(self).queue == old(self).queue,
            final(self).in_flight@ == old(self).in_flight@.subrange(
                1,
                old(self).in_flight@.len() as int,
            ),
            m == old(self).in_flight@[0],
    {
        self.in_flight.remove(0)
    }
}

/// The in-flight list after the worker finished the reserved job: the
/// job is gone, whatever the outcome was.
pub open spec fn spec_acked<M>(in_flight: Seq<M>) -> Seq<M> {
    in_flight.subrange(1, in_flight.len() as int)
}

/// How the worker loop settled one reserved job.
#[derive(Clone, Copy, Debug, PartialEq, Eq, Structural)]
pub enum DispatchOutcome {
    /// Handler succeeded: acknowledged, success event recorded.
    Succeeded,
    /// Expected conflict: acknowledged and dropped silently.
    DroppedSilently,
    /// Recoverable failure: acknowledged and re-enqueued with the
    /// attempt counter incremented.
    Requeued,
    /// Attempt cap reached: acknowledged, dropped, failure event
    /// recorded.
    GaveUp,
}

/// A poison message — one that does not deserialise — is acknowledged
/// and discarded, so it never lingers on the in-flight list.
pub fn discard_reserved(queues: &mut QueueState<IngestionMessage>)
    requires
        old(queues).in_flight@.len() > 0,
    ensures
        final(queues).queue == old(queues).queue,
        final(queues).in_flight@ == spec_acked(old(queues).in_flight@),
{
    let _ = queues.ack_front();
}

/// Settles a handler result for the reserved ingestion job: exactly
/// one of — acknowledged on success (with its success event recorded);
/// acknowledged and dropped silently on an expected conflict;
/// acknowledged and re-enqueued with the attempt counter incremented
/// on a recoverable failure below the attempt cap; or acknowledged,
/// dropped and recorded as failed at the cap.  The job never stays on
/// the in-flight list.
pub fn settle_ingestion_result(
    queues: &mut QueueState<IngestionMessage>,
    events: &mut Vec<Event>,
    handler_result: Result<Option<Vec<u128>>, ServiceError>,
    dataset_id: u128,
    success_event: Option<EventType>,
) -> (r: DispatchOutcome)
    requires
        old(queues).in_flight@.len() > 0,
    ensures
        final(queues).in_flight@ == spec_acked(old(queues).in_flight@),
        ({
            let m = old(queues).in_flight@[0];
            let n = (match m@ {
                IngestionMessageView::BulkUpload(b) => b.attempt_number,
                IngestionMessageView::Update(u) => u.attempt_number,
            });
            match handler_result {
                Ok(_) => {
                    &&& r is Succeeded
                    &&& final(queues).queue == old(queues).queue
                    &&& (match success_event {
                        Some(ev) => final(events)@.len() == old(events)@.len() + 1
                            && final(events)@.last().dataset_id == dataset_id
                            && final(events)@.last().event_type == ev
                            && (forall|t: int|
                            0 <= t < old(events)@.len()
                                ==> final(events)@[t] == #[trigger] old(events)@[t]),
                        None => final(events)@ == old(events)@,
                    })
                },
                Err(e) => {
                    if e is DuplicateTrackingId {
                        &&& r is DroppedSilently
                        &&& final(queues).queue == old(queues).queue
                        &&& final(events)@ == old(events)@
                    } else if n + 1 < MAX_INGESTION_ATTEMPTS {
                        &&& r is Requeued
                        &&& final(events)@ == old(events)@
                        &&& final(queues).queue@.len() == old(queues).queue@.len() + 1
                        &&& final(queues).queue@.skip(1) == old(queues).queue@
                        &&& final(queues).queue@[0]@ == (match m@ {
                            IngestionMessageView::BulkUpload(b) =>
                                IngestionMessageView::BulkUpload(
                                spec_bulk_bumped(b, (n + 1) as u64),
                            ),
                            IngestionMessageView::Update(u) => IngestionMessageView::Update(
                                spec_update_bumped(u, (n + 1) as u64),
                            ),
                        })
                    } else {
                        &&& r is GaveUp
                        &&& final(queues).queue == old(queues).queue
                        &&& final(events)@.len() == old(events)@.len() + 1
                        &&& (forall|t: int|
                            0 <= t < old(events)@.len()
                                ==> final(events)@[t] == #[trigger] old(events)@[t])
                        &&& final(events)@.last().dataset_id == dataset_id
                        &&& final(events)@.last().event_type matches
                            EventType::BulkChunkUploadFailed { chunk_ids, error: errtext }
                            && chunk_ids@ == (match m@ {
                            IngestionMessageView::BulkUpload(b) => spec_bulk_chunk_ids(b),
                            IngestionMessageView::Update(u) => seq![u.chunk_metadata.id],
                        }) && errtext@ == e.spec_message()
                    }
                },
            }
        }),
{
    let message = queues.ack_front();
    match handler_result {
        Ok(_) => {
            match success_event {
                Some(ev) => {
                    events.push(Event::from_details(dataset_id, ev));
                },
                None => {},
            }
            DispatchOutcome::Succeeded
        },
        Err(e) => {
            match readd_error_to_queue(message, &e) {
                RetryDecision::DropSilently => DispatchOutcome::DroppedSilently,
                RetryDecision::Requeue(bumped) => {
                    queues.produce(bumped);
                    DispatchOutcome::Requeued
                },
                RetryDecision::GiveUp(ev) => {
                    events.push(Event::from_details(dataset_id, ev));
                    DispatchOutcome::GaveUp
                },
            }
        },
    }
}

/// Settles a handler result for the reserved group re-tagging job:
/// acknowledged on success (group-updated event recorded); otherwise
/// acknowledged and re-enqueued with the attempt counter incremented,
/// until the third attempt, which is recorded as failed and dropped.
pub fn settle_group_update_result(
    queues: &mut QueueState<GroupUpdateMessage>,
    events: &mut Vec<Event>,
    handler_result: Result<(), ServiceError>,
) -> (r: DispatchOutcome)
    requires
        old(queues).in_flight@.len() > 0,
    ensures
        final(queues).in_flight@ == spec_acked(old(queues).in_flight@),
        ({
            let m = old(queues).in_flight@[0];
            match handler_result {
                Ok(u) => {
                    &&& r is Succeeded
                    &&& final(queues).queue == old(queues).queue
                    &&& final(events)@.len() == old(events)@.len() + 1
                    &&& (forall|t: int|
                        0 <= t < old(events)@.len() ==> final(events)@[t] == #[trigger] old(
                            events,
                        )@[t])
                    &&& final(events)@.last().dataset_id == m.group.dataset_id
                    &&& final(events)@.last().event_type matches EventType::GroupChunksUpdated {
                        group_id,
                    } && group_id == m.group.id
                },
                Err(e) => {
                    if m.attempt_number + 1 < MAX_GROUP_UPDATE_ATTEMPTS {
                        &&& r is Requeued
                        &&& final(events)@ == old(events)@
                        &&& final(queues).queue@.len() == old(queues).queue@.len() + 1
                        &&& final(queues).queue@.skip(1) == old(queues).queue@
                        &&& final(queues).queue@[0]@ == spec_group_bumped(
                            m@,
                            (m.attempt_number + 1) as u64,
                        )
                    } else {
                        &&& r is GaveUp
                        &&& final(queues).queue == old(queues).queue
                        &&& final(events)@.len() == old(events)@.len() + 1
                        &&& (forall|t: int|
                            0 <= t < old(events)@.len()
                                ==> final(events)@[t] == #[trigger] old(events)@[t])
                        &&& final(events)@.last().dataset_id == m.group.dataset_id
                        &&& final(events)@.last().event_type matches
                            EventType::GroupChunksActionFailed { group_id, error: errtext }
                            && group_id == m.group.id && errtext@ == e.spec_message()
                    }
                },
            }
        }),
{
    let message = queues.ack_front();
    let dataset_id: u128 = message.group.dataset_id;
    let group_id: u128 = message.group.id;
    match handler_result {
        Ok(()) => {
            events.push(Event::from_details(dataset_id, EventType::GroupChunksUpdated {
                group_id,
            }));
            DispatchOutcome::Succeeded
        },
        Err(e) => {
            match read_group_error_to_queue(message, &e) {
                RetryDecision::DropSilently => DispatchOutcome::DroppedSilently,
                RetryDecision::Requeue(bumped) => {
                    queues.produce(bumped);
                    DispatchOutcome::Requeued
                },
                RetryDecision::GiveUp(ev) => {
                    events.push(Event::from_details(dataset_id, ev));
                    DispatchOutcome::GaveUp
                },
            }
        },
    }
}

} // verus!
