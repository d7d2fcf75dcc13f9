use vstd::prelude::*;
use crate::errors::ServiceError;
use crate::events::EventType;
use crate::models::{
    BulkUploadIngestionMessageView, GroupUpdateMessage, GroupUpdateMessageView, IngestionMessage,
    IngestionMessageView, UpdateIngestionMessageView, UploadIngestionMessage,
};

verus! {

/// Attempt cap of bulk ingestion and chunk update jobs: after the
/// tenth attempt a job is dropped and a failure event recorded.
pub const MAX_INGESTION_ATTEMPTS: u64 = 10;

/// Attempt cap of group re-tagging jobs.
pub const MAX_GROUP_UPDATE_ATTEMPTS: u64 = 3;

/// What the retry policy decides for a job that failed: drop it
/// silently (expected conflict), re-enqueue it with its attempt
/// counter incremented, or give up and record a failure event.  In
/// every case the job leaves the in-flight list.
pub enum RetryDecision<M> {
    DropSilently,
    Requeue(M),
    GiveUp(EventType),
}

/// The ids of the chunks a bulk envelope carries.
pub open spec fn spec_bulk_chunk_ids(b: BulkUploadIngestionMessageView) -> Seq<u128> {
    b.ingestion_messages.map_values(
        |m: crate::models::UploadIngestionMessageView| m.ingest_specific_chunk_metadata.id,
    )
}

/// A bulk envelope equal to `b` but for the attempt counter.
pub open spec fn spec_bulk_bumped(b: BulkUploadIngestionMessageView, n: u64) -> BulkUploadIngestionMessageView {
    BulkUploadIngestionMessageView { attempt_number: n, ..b }
}

/// An update envelope equal to `u` but for the attempt counter.
pub open spec fn spec_update_bumped(u: UpdateIngestionMessageView, n: u64) -> UpdateIngestionMessageView {
    UpdateIngestionMessageView { attempt_number: n, ..u }
}

/// A group envelope equal to `g` but for the attempt counter.
pub open spec fn spec_group_bumped(g: GroupUpdateMessageView, n: u64) -> GroupUpdateMessageView {
    GroupUpdateMessageView { attempt_number: n, ..g }
}

fn bulk_chunk_ids(msgs: &Vec<UploadIngestionMessage>) -> (r: Vec<u128>)
    ensures
        r@ == msgs@.map_values(|m: UploadIngestionMessage| m@).map_values(
            |m: crate::models::UploadIngestionMessageView| m.ingest_specific_chunk_metadata.id,
        ),
{
    let ghost target = msgs@.map_values(|m: UploadIngestionMessage| m@).map_values(
        |m: crate::models::UploadIngestionMessageView| m.ingest_specific_chunk_metadata.id,
    );
    let mut r: Vec<u128> = Vec::new();
    let mut k: usize = 0;
    while k < msgs.len()
        invariant
            k <= msgs@.len(),
            target == msgs@.map_values(|m: UploadIngestionMessage| m@).map_values(
                |m: crate::models::UploadIngestionMessageView| m.ingest_specific_chunk_metadata.id,
            ),
            r@ =~= target.subrange(0, k as int),
        decreases msgs@.len() - k,
    {
        r.push(msgs[k].ingest_specific_chunk_metadata.id);
        proof {
            assert(target[k as int] == msgs@[k as int]@.ingest_specific_chunk_metadata.id);
            assert(r@ =~= target.subrange(0, k + 1));
        }
        k = k + 1;
    }
    proof {
        assert(r@ =~= target);
    }
    r
}

/// The retry policy of the ingestion worker.  A duplicate tracking id
/// is an expected conflict and is dropped silently.  Any other failure
/// re-enqueues the job with its attempt counter incremented — until
/// the tenth attempt, after which the job is dropped for good and a
/// bulk-upload-failure event naming the affected chunk ids and the
/// error is recorded.
pub fn readd_error_to_queue(message: IngestionMessage, error: &ServiceError) -> (r: RetryDecision<
    IngestionMessage,
>)
    ensures
        r is DropSilently <==> error.spec_is_duplicate_tracking_id(),
        !error.spec_is_duplicate_tracking_id() ==> {
            let n = (match message@ {
                IngestionMessageView::BulkUpload(b) => b.attempt_number,
                IngestionMessageView::Update(u) => u.attempt_number,
            });
            if n + 1 < MAX_INGESTION_ATTEMPTS {
                &&& r is Requeue
                &&& r->Requeue_0@ == (match message@ {
                    IngestionMessageView::BulkUpload(b) => IngestionMessageView::BulkUpload(
                        spec_bulk_bumped(b, (n + 1) as u64),
                    ),
                    IngestionMessageView::Update(u) => IngestionMessageView::Update(
                        spec_update_bumped(u, (n + 1) as u64),
                    ),
                })
            } else {
                &&& r is GiveUp
                &&& r->GiveUp_0 matches EventType::BulkChunkUploadFailed { chunk_ids, error: e }
                    && chunk_ids@ == (match message@ {
                    IngestionMessageView::BulkUpload(b) => spec_bulk_chunk_ids(b),
                    IngestionMessageView::Update(u) => seq![u.chunk_metadata.id],
                }) && e@ == error.spec_message()
            }
        },
{
    if error.is_duplicate_tracking_id() {
        return RetryDecision::DropSilently;
    }
    match message {
        IngestionMessage::BulkUpload(mut payload) => {
            if payload.attempt_number >= MAX_INGESTION_ATTEMPTS - 1 {
                let chunk_ids = bulk_chunk_ids(&payload.ingestion_messages);
                RetryDecision::GiveUp(EventType::BulkChunkUploadFailed {
                    chunk_ids,
                    error: error.message(),
                })
            } else {
                let ghost before = payload@;
                payload.attempt_number = payload.attempt_number + 1;
                proof {
                    assert(payload@ =~= spec_bulk_bumped(before, payload.attempt_number));
                }
                RetryDecision::Requeue(IngestionMessage::BulkUpload(payload))
            }
        },
        IngestionMessage::Update(mut payload) => {
            if payload.attempt_number >= MAX_INGESTION_ATTEMPTS - 1 {
                let mut chunk_ids: Vec<u128> = Vec::new();
                chunk_ids.push(payload.chunk_metadata.id);
                proof {
                    assert(chunk_ids@ =~= seq![payload.chunk_metadata.id]);
                }
                RetryDecision::GiveUp(EventType::BulkChunkUploadFailed {
                    chunk_ids,
                    error: error.message(),
                })
            } else {
                let ghost before = payload@;
                payload.attempt_number = payload.attempt_number + 1;
                proof {
                    assert(payload@ =~= spec_update_bumped(before, payload.attempt_number));
                }
                RetryDecision::Requeue(IngestionMessage::Update(payload))
            }
        },
    }
}

/// The retry policy of the group re-tagging worker: any failure
/// re-enqueues the job with its attempt counter incremented — until
/// the third attempt, after which the job is dropped for good and a
/// group-action-failure event naming the group and the error is
/// recorded.
pub fn read_group_error_to_queue(
    payload: GroupUpdateMessage,
    error: &ServiceError,
) -> (r: RetryDecision<GroupUpdateMessage>)
    ensures
        payload.attempt_number + 1 < MAX_GROUP_UPDATE_ATTEMPTS ==> r is Requeue
            && r->Requeue_0@ == spec_group_bumped(
            payload@,
            (payload.attempt_number + 1) as u64,
        ),
        payload.attempt_number + 1 >= MAX_GROUP_UPDATE_ATTEMPTS ==> {
            &&& r is GiveUp
            &&& r->GiveUp_0 matches EventType::GroupChunksActionFailed { group_id, error: e }
                && group_id == payload.group.id && e@ == error.spec_message()
        },
{
    let mut payload = payload;
    if payload.attempt_number >= MAX_GROUP_UPDATE_ATTEMPTS - 1 {
        RetryDecision::GiveUp(EventType::GroupChunksActionFailed {
            group_id: payload.group.id,
            error: error.message(),
        })
    } else {
        let ghost before = payload@;
        payload.attempt_number = payload.attempt_number + 1;
        proof {
            assert(payload@ =~= spec_group_bumped(before, payload.attempt_number));
        }
        RetryDecision::Requeue(payload)
    }
}

/// The exponential back-off of the worker loops: each sleep doubles
/// the previous one, capped.
pub fn next_backoff(current_seconds: u64, cap_seconds: u64) -> (r: u64)
    ensures
        r as int == (if 2 * (current_seconds as int) <= cap_seconds as int {
            2 * (current_seconds as int)
        } else {
            cap_seconds as int
        }),
{
    if current_seconds <= cap_seconds / 2 {
        proof {
            assert(2 * (current_seconds as int) <= cap_seconds as int);
        }
        2 * current_seconds
    } else {
        cap_seconds
    }
}

} // verus!
