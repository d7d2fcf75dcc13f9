use ingest_core::config::ServerDatasetConfiguration;
use ingest_core::errors::ServiceError;
use ingest_core::events::EventType;
use ingest_core::models::{
    ChunkData, ChunkReqPayload, IngestSpecificChunkMetadata, IngestionMessage, PointData,
    QdrantPayload, SearchResult, UploadIngestionMessage,
};
use ingest_core::pipeline::{
    bulk_upload_chunks, prepare_chunk_data, upload_chunk,
};
use ingest_core::store::{RelationalStore, VectorStore};
use ingest_core::worker::{DispatchOutcome, QueueState};

fn test_config() -> ServerDatasetConfiguration {
    ServerDatasetConfiguration {
        embedding_size: 1536,
        duplicate_distance_threshold: 10000,
        collisions_enabled: false,
        fulltext_enabled: false,
        locked: false,
    }
}

fn payload_with(html: &str, tracking: Option<&str>) -> ChunkReqPayload {
    ChunkReqPayload {
        chunk_html: Some(html.to_string()),
        link: None,
        tag_set: None,
        metadata: None,
        tracking_id: tracking.map(|t| t.to_string()),
        time_stamp: None,
        location: None,
        weight: None,
        image_urls: None,
        num_value: None,
        group_ids: None,
        split_avg: None,
        chunk_vector: None,
        convert_html_to_text: None,
        boost_phrase: None,
    }
}

fn upload_message(
    id: u128,
    point_id: u128,
    dataset_id: u128,
    html: &str,
    tracking: Option<&str>,
    upsert: bool,
) -> UploadIngestionMessage {
    UploadIngestionMessage {
        ingest_specific_chunk_metadata: IngestSpecificChunkMetadata {
            id,
            qdrant_point_id: Some(point_id),
            dataset_id,
        },
        chunk: payload_with(html, tracking),
        dataset_id,
        dataset_config: test_config(),
        upsert_by_tracking_id: upsert,
    }
}

fn prepared(
    id: u128,
    point_id: u128,
    dataset_id: u128,
    html: &str,
    tracking: Option<&str>,
    upsert: bool,
) -> ChunkData {
    let msg = upload_message(id, point_id, dataset_id, html, tracking, upsert);
    prepare_chunk_data(&msg, dataset_id, point_id, 0, None)
}

fn dense(len: usize) -> Vec<i64> {
    vec![7i64; len]
}

fn stub_sparse() -> Vec<(u32, i64)> {
    vec![(0u32, 0i64)]
}

fn fresh_point(point_id: u128, dataset_id: u128) -> PointData {
    let row = prepared(900, point_id, dataset_id, "seed", None, false);
    PointData {
        point_id,
        dense: dense(1536),
        sparse: stub_sparse(),
        payload: QdrantPayload::new(&row.chunk_metadata, None, None, None),
    }
}

#[test]
fn fresh_bulk_of_three() {
    let dataset = 77u128;
    let mut rel = RelationalStore::new();
    let mut index = VectorStore::new();
    let mut pg_queue = Vec::new();
    let data = vec![
        prepared(1, 11, dataset, "<p>hi</p>", Some("a"), false),
        prepared(2, 12, dataset, "<p>hi</p>", Some("b"), false),
        prepared(3, 13, dataset, "<p>hi</p>", Some("c"), false),
    ];
    assert_eq!(data[0].content, "hi".to_string());
    let embeddings = vec![dense(1536), dense(1536), dense(1536)];
    let splades = vec![stub_sparse(), stub_sparse(), stub_sparse()];
    let r = bulk_upload_chunks(
        &data,
        dataset,
        test_config(),
        &mut rel,
        &mut index,
        &embeddings,
        &splades,
        true,
        false,
        &mut pg_queue,
    );
    match r {
        Ok(Some(ids)) => assert_eq!(ids, vec![1u128, 2u128, 3u128]),
        _ => panic!("expected three inserted ids"),
    }
    assert_eq!(rel.chunks.len(), 3);
    assert_eq!(index.points.len(), 3);
    assert_eq!(rel.chunks[0].chunk_html, Some("<p>hi</p>".to_string()));
    assert_eq!(rel.chunks[0].tracking_id, Some("a".to_string()));
    assert_eq!(index.points[0].dense.len(), 1536);
    assert!(pg_queue.is_empty());

    // The worker acknowledges the job and records the uploaded event.
    let mut queues: QueueState<IngestionMessage> = QueueState::new();
    let mut events = Vec::new();
    queues.produce(IngestionMessage::BulkUpload(
        ingest_core::models::BulkUploadIngestionMessage {
            attempt_number: 0,
            dataset_id: dataset,
            dataset_configuration: test_config(),
            ingestion_messages: vec![],
        },
    ));
    assert!(queues.reserve());
    let outcome = ingest_core::worker::settle_ingestion_result(
        &mut queues,
        &mut events,
        Ok(Some(vec![1, 2, 3])),
        dataset,
        Some(EventType::ChunksUploaded { chunk_ids: vec![1, 2, 3] }),
    );
    assert_eq!(outcome, DispatchOutcome::Succeeded);
    assert_eq!(events.len(), 1);
    assert_eq!(events[0].dataset_id, dataset);
    match &events[0].event_type {
        EventType::ChunksUploaded { chunk_ids } => {
            assert_eq!(chunk_ids, &vec![1u128, 2u128, 3u128])
        },
        _ => panic!("expected an uploaded event"),
    }
    assert_eq!(queues.in_flight.len(), 0);
    assert_eq!(queues.queue.len(), 0);
}

#[test]
fn collision_hit_links_row_to_winner() {
    let dataset = 5u128;
    let mut config = test_config();
    config.duplicate_distance_threshold = 9000;
    config.collisions_enabled = true;
    let mut rel = RelationalStore::new();
    let mut index = VectorStore::new();
    let winner_point = 42u128;
    // Pre-existing chunk row owning point P, and the point itself.
    let seed = prepared(100, winner_point, dataset, "seed", Some("w"), false);
    rel.insert_chunk_metadata_query(seed.chunk_metadata, &None, false)
        .expect("seed insert");
    index.bulk_upsert_qdrant_points_query(vec![fresh_point(winner_point, dataset)]);
    assert_eq!(index.point_count(), 1);

    let data = prepared(101, 55, dataset, "near duplicate", Some("n"), false);
    let r = upload_chunk(
        data,
        config,
        &mut rel,
        &mut index,
        dense(1536),
        stub_sparse(),
        Some(SearchResult { score: 9500, point_id: winner_point }),
        true,
    );
    assert_eq!(r.expect("collision upload"), Some(101));
    assert_eq!(rel.chunks.len(), 2);
    assert_eq!(rel.chunks[1].id, 101);
    assert_eq!(rel.chunks[1].qdrant_point_id, Some(winner_point));
    // No new point was created.
    assert_eq!(index.point_count(), 1);
}

#[test]
fn vector_failure_rolls_back_and_requeues() {
    let dataset = 9u128;
    let mut rel = RelationalStore::new();
    let mut index = VectorStore::new();
    let mut pg_queue = Vec::new();
    let data = vec![prepared(1, 11, dataset, "<p>x</p>", Some("a"), false)];
    let embeddings = vec![dense(1536)];
    let splades = vec![stub_sparse()];
    let r = bulk_upload_chunks(
        &data,
        dataset,
        test_config(),
        &mut rel,
        &mut index,
        &embeddings,
        &splades,
        false,
        false,
        &mut pg_queue,
    );
    match r {
        Err(ServiceError::InternalServerError(_)) => {},
        _ => panic!("expected an infrastructure failure"),
    }
    // Zero new chunk rows: the insert was reverted.
    assert_eq!(rel.chunks.len(), 0);
    assert_eq!(index.points.len(), 0);

    // The job is re-queued with attempt 2.
    let mut queues: QueueState<IngestionMessage> = QueueState::new();
    let mut events = Vec::new();
    let envelope = ingest_core::models::BulkUploadIngestionMessage {
        attempt_number: 1,
        dataset_id: dataset,
        dataset_configuration: test_config(),
        ingestion_messages: vec![upload_message(1, 11, dataset, "<p>x</p>", Some("a"), false)],
    };
    queues.produce(IngestionMessage::BulkUpload(envelope));
    assert!(queues.reserve());
    let outcome = ingest_core::worker::settle_ingestion_result(
        &mut queues,
        &mut events,
        Err(ServiceError::InternalServerError("vector gateway down".to_string())),
        dataset,
        None,
    );
    assert_eq!(outcome, DispatchOutcome::Requeued);
    assert!(events.is_empty());
    assert_eq!(queues.in_flight.len(), 0);
    assert_eq!(queues.queue.len(), 1);
    match &queues.queue[0] {
        IngestionMessage::BulkUpload(b) => assert_eq!(b.attempt_number, 2),
        _ => panic!("expected the bulk envelope back"),
    }
}

#[test]
fn tracking_id_upsert_replaces_row() {
    let dataset = 3u128;
    let mut rel = RelationalStore::new();
    let mut index = VectorStore::new();
    let old_row = prepared(1, 10, dataset, "old", Some("k"), false);
    rel.insert_chunk_metadata_query(old_row.chunk_metadata, &None, false)
        .expect("seed insert");
    index.bulk_upsert_qdrant_points_query(vec![fresh_point(10, dataset)]);

    let new_data = prepared(2, 20, dataset, "new", Some("k"), true);
    let new_embedding = vec![9i64; 1536];
    let r = upload_chunk(
        new_data,
        test_config(),
        &mut rel,
        &mut index,
        new_embedding.clone(),
        stub_sparse(),
        None,
        true,
    );
    // Single row, same chunk id, same point id, new content.
    assert_eq!(r.expect("upsert"), Some(1));
    assert_eq!(rel.chunks.len(), 1);
    assert_eq!(rel.chunks[0].id, 1);
    assert_eq!(rel.chunks[0].qdrant_point_id, Some(10));
    assert_eq!(rel.chunks[0].chunk_html, Some("new".to_string()));
    assert_eq!(rel.chunks[0].tracking_id, Some("k".to_string()));
    // The point was re-embedded with the new content at the old id.
    assert_eq!(index.points.len(), 1);
    assert_eq!(index.points[0].point_id, 10);
    assert_eq!(index.points[0].dense, new_embedding);
}

#[test]
fn duplicate_tracking_id_strict_is_dropped_silently() {
    let dataset = 3u128;
    let mut rel = RelationalStore::new();
    let mut index = VectorStore::new();
    let old_row = prepared(1, 10, dataset, "old", Some("k"), false);
    rel.insert_chunk_metadata_query(old_row.chunk_metadata, &None, false)
        .expect("seed insert");

    let new_data = prepared(2, 20, dataset, "new", Some("k"), false);
    let r = upload_chunk(
        new_data,
        test_config(),
        &mut rel,
        &mut index,
        dense(1536),
        stub_sparse(),
        None,
        true,
    );
    match r {
        Err(ServiceError::DuplicateTrackingId(_)) => {},
        _ => panic!("expected a duplicate tracking id"),
    }
    // No row changes.
    assert_eq!(rel.chunks.len(), 1);
    assert_eq!(rel.chunks[0].chunk_html, Some("old".to_string()));
    assert_eq!(index.points.len(), 0);

    // The worker acknowledges silently: no retry, no event.
    let mut queues: QueueState<IngestionMessage> = QueueState::new();
    let mut events = Vec::new();
    queues.produce(IngestionMessage::BulkUpload(
        ingest_core::models::BulkUploadIngestionMessage {
            attempt_number: 0,
            dataset_id: dataset,
            dataset_configuration: test_config(),
            ingestion_messages: vec![],
        },
    ));
    assert!(queues.reserve());
    let outcome = ingest_core::worker::settle_ingestion_result(
        &mut queues,
        &mut events,
        Err(ServiceError::DuplicateTrackingId("k".to_string())),
        dataset,
        None,
    );
    assert_eq!(outcome, DispatchOutcome::DroppedSilently);
    assert!(events.is_empty());
    assert_eq!(queues.queue.len(), 0);
    assert_eq!(queues.in_flight.len(), 0);
}

#[test]
fn retry_exhaustion_emits_failure_event() {
    let dataset = 8u128;
    let mut queues: QueueState<IngestionMessage> = QueueState::new();
    let mut events = Vec::new();
    // The tenth attempt: attempt number 9 fails once more.
    let envelope = ingest_core::models::BulkUploadIngestionMessage {
        attempt_number: 9,
        dataset_id: dataset,
        dataset_configuration: test_config(),
        ingestion_messages: vec![
            upload_message(1, 11, dataset, "a", None, false),
            upload_message(2, 12, dataset, "b", None, false),
        ],
    };
    queues.produce(IngestionMessage::BulkUpload(envelope));
    assert!(queues.reserve());
    let outcome = ingest_core::worker::settle_ingestion_result(
        &mut queues,
        &mut events,
        Err(ServiceError::InternalServerError("still down".to_string())),
        dataset,
        None,
    );
    assert_eq!(outcome, DispatchOutcome::GaveUp);
    // No re-queue, and a failure event naming the chunk ids.
    assert_eq!(queues.queue.len(), 0);
    assert_eq!(queues.in_flight.len(), 0);
    assert_eq!(events.len(), 1);
    match &events[0].event_type {
        EventType::BulkChunkUploadFailed { chunk_ids, error } => {
            assert_eq!(chunk_ids, &vec![1u128, 2u128]);
            assert_eq!(error, &"still down".to_string());
        },
        _ => panic!("expected a bulk upload failure event"),
    }
}
