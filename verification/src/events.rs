use vstd::prelude::*;

verus! {

/// User-visible lifecycle events appended to the analytics store.
/// Writing an event is fire-and-forget: a failure to record one never
/// fails the job that triggered it.
#[derive(Clone, Debug)]
pub enum EventType {
    ChunksUploaded { chunk_ids: Vec<u128> },
    ChunkUpdated { chunk_id: u128 },
    GroupChunksUpdated { group_id: u128 },
    GroupChunksActionFailed { group_id: u128, error: String },
    BulkChunkUploadFailed { chunk_ids: Vec<u128>, error: String },
    BulkChunksDeleted { message: String },
}

/// An event together with the dataset it belongs to.
#[derive(Clone, Debug)]
pub struct Event {
    pub dataset_id: u128,
    pub event_type: EventType,
}

impl Event {
    /// Builds the event record for a dataset.
    pub fn from_details(dataset_id: u128, event_type: EventType) -> (r: Event)
        ensures
            r.dataset_id == dataset_id,
            r.event_type == event_type,
    {
        Event { dataset_id, event_type }
    }
}

} // verus!
