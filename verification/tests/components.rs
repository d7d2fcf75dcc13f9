use ingest_core::auth::{
    get_api_key_from_headers, get_role_for_org, role_from_number, verify_admin, verify_member,
    verify_owner, AuthDecision, AuthMiddlewareFactory, RequestHeaders, SlimUser, UserRole,
};
use ingest_core::config::ServerDatasetConfiguration;
use ingest_core::errors::ServiceError;
use ingest_core::events::EventType;
use ingest_core::metrics::{Metrics, QueueDepths};
use ingest_core::models::{
    ChunkGroup, ChunkReqPayload, GroupUpdateMessage, IngestSpecificChunkMetadata,
    UploadIngestionMessage,
};
use ingest_core::numfmt::u64_to_string;
use ingest_core::pipeline::{
    bulk_upload_chunks, bulk_upload_chunks_per_message, bulk_upload_requires_per_message_path,
    chunk_group_tags, prepare_chunk_data, resolve_embedding, update_chunk, MessageEnv,
};
use ingest_core::retry::{next_backoff, read_group_error_to_queue, RetryDecision};
use ingest_core::store::{RelationalStore, VectorStore};
use ingest_core::text::{average_embeddings, coarse_doc_chunker, convert_html_to_text};
use ingest_core::vectors::{vector_collection_name, vector_name_for_arity};
use ingest_core::worker::QueueState;

fn test_config() -> ServerDatasetConfiguration {
    ServerDatasetConfiguration {
        embedding_size: 1536,
        duplicate_distance_threshold: 10000,
        collisions_enabled: false,
        fulltext_enabled: false,
        locked: false,
    }
}

fn plain_payload(html: &str, tracking: Option<&str>) -> ChunkReqPayload {
    ChunkReqPayload {
        chunk_html: Some(html.to_string()),
        link: None,
        tag_set: None,
        metadata: None,
        tracking_id: tracking.map(|t| t.to_string()),
        time_stamp: None,
        location: None,
        weight: None,
        image_urls: None,
        num_value: None,
        group_ids: None,
        split_avg: None,
        chunk_vector: None,
        convert_html_to_text: None,
        boost_phrase: None,
    }
}

fn message(id: u128, point: u128, dataset: u128, html: &str, t: Option<&str>) -> UploadIngestionMessage {
    UploadIngestionMessage {
        ingest_specific_chunk_metadata: IngestSpecificChunkMetadata {
            id,
            qdrant_point_id: Some(point),
            dataset_id: dataset,
        },
        chunk: plain_payload(html, t),
        dataset_id: dataset,
        dataset_config: test_config(),
        upsert_by_tracking_id: false,
    }
}

#[test]
fn html_is_stripped() {
    assert_eq!(convert_html_to_text("<p>hi</p>"), "hi".to_string());
    assert_eq!(convert_html_to_text("a<b attr=\"x\">bold</b>c"), "aboldc".to_string());
    assert_eq!(convert_html_to_text("no tags"), "no tags".to_string());
    assert_eq!(convert_html_to_text(""), "".to_string());
}

#[test]
fn coarse_chunker_groups_words() {
    let chunks = coarse_doc_chunker("one two three four five", 2);
    assert_eq!(
        chunks,
        vec!["one two".to_string(), "three four".to_string(), "five".to_string()]
    );
    let empty = coarse_doc_chunker("   ", 2);
    assert!(empty.is_empty());
}

#[test]
fn averaging_embeddings_is_the_element_wise_mean() {
    let r = average_embeddings(&vec![vec![1, 10], vec![3, 20]]).expect("mean");
    assert_eq!(r, vec![2i64, 15i64]);
    assert!(average_embeddings(&Vec::new()).is_err());
    assert!(average_embeddings(&vec![vec![1], vec![1, 2]]).is_err());
}

#[test]
fn decimal_rendering_is_exact() {
    assert_eq!(u64_to_string(0), "0".to_string());
    assert_eq!(u64_to_string(1536), "1536".to_string());
    assert_eq!(u64_to_string(18446744073709551615), "18446744073709551615".to_string());
}

#[test]
fn arity_routing_names_recognised_sizes_only() {
    assert_eq!(vector_name_for_arity(1536), Some("1536_vectors".to_string()));
    assert_eq!(vector_name_for_arity(384), Some("384_vectors".to_string()));
    assert_eq!(vector_name_for_arity(1537), None);
    assert_eq!(vector_name_for_arity(0), None);
    assert_eq!(vector_collection_name(768), "768_vectors".to_string());
}

#[test]
fn unrecognised_arity_is_rejected_on_the_per_message_path() {
    let dataset = 1u128;
    let mut rel = RelationalStore::new();
    let mut index = VectorStore::new();
    let msg = message(1, 11, dataset, "x", Some("a"));
    let data = prepare_chunk_data(&msg, dataset, 11, 0, None);
    let r = ingest_core::pipeline::upload_chunk(
        data,
        test_config(),
        &mut rel,
        &mut index,
        vec![1i64; 100],
        vec![(0, 0)],
        None,
        true,
    );
    match r {
        Err(ServiceError::BadRequest(_)) => {},
        _ => panic!("expected a bad request"),
    }
    assert!(rel.chunks.is_empty());
    assert!(index.points.is_empty());
}

#[test]
fn metrics_render_the_exposition_format() {
    let mut m = Metrics::new();
    m.update_queue_gauges(&QueueDepths {
        ingestion: 5,
        delete_dataset_queue: 0,
        file_ingestion: 0,
        file_processing: 0,
        delete_dataset_processing: 0,
        processing: 2,
        group_update_queue: 0,
        group_update_processing: 0,
    });
    let text = m.get_response();
    assert!(text.contains("# TYPE ingest_queue gauge\ningest_queue 5\n"));
    assert!(text.contains("ingest_processing 2\n"));
    assert!(text.contains("group_update_processing 0\n"));
}

#[test]
fn roles_are_ordered_and_found_per_org() {
    let user = SlimUser { id: 1, user_orgs: vec![(10, 2), (20, 0)] };
    assert_eq!(get_role_for_org(&user, 10), Some(UserRole::Owner));
    assert_eq!(get_role_for_org(&user, 20), Some(UserRole::User));
    assert_eq!(get_role_for_org(&user, 30), None);
    assert!(verify_owner(&user, 10));
    assert!(verify_admin(&user, 10));
    assert!(verify_member(&user, 20));
    assert!(!verify_admin(&user, 20));
    assert!(!verify_member(&user, 30));
    assert_eq!(role_from_number(1), UserRole::Admin);
}

#[test]
fn api_key_header_strips_bearer_prefix() {
    let headers = RequestHeaders {
        authorization: Some("Bearer SECRET-REDACTED".to_string()),
        x_api_key: None,
        tr_dataset: None,
        x_dataset: None,
        tr_organization: None,
        x_organization: None,
    };
    assert_eq!(get_api_key_from_headers(&headers), Some("SECRET-REDACTED".to_string()));
    let headers2 = RequestHeaders {
        authorization: None,
        x_api_key: Some("plain-key".to_string()),
        tr_dataset: None,
        x_dataset: None,
        tr_organization: None,
        x_organization: None,
    };
    assert_eq!(get_api_key_from_headers(&headers2), Some("plain-key".to_string()));
}

#[test]
fn middleware_decides_scoping_and_roles() {
    let factory = AuthMiddlewareFactory;
    let mw = factory.new_transform();
    let user = SlimUser { id: 1, user_orgs: vec![(10, 1)] };
    // Scoped key that does not list the dataset's organisation.
    let d = mw.call(Some(&user), Some(&vec![99u128]), None, Some((5, 10)), None);
    assert_eq!(d, AuthDecision::Unauthorized);
    // Member of the resolved organisation.
    let d = mw.call(Some(&user), None, None, Some((5, 10)), None);
    assert_eq!(d, AuthDecision::ForwardWithRole(UserRole::Admin));
    // Outside the organisation.
    let d = mw.call(Some(&user), None, None, None, Some(30));
    assert_eq!(d, AuthDecision::Forbidden);
    // No organisation context at all.
    let d = mw.call(Some(&user), None, None, None, None);
    assert_eq!(d, AuthDecision::Forward);
}

#[test]
fn group_retry_gives_up_on_the_third_attempt() {
    let group = ChunkGroup {
        id: 4,
        dataset_id: 2,
        name: "g".to_string(),
        tag_set: None,
    };
    let msg = GroupUpdateMessage {
        prev_group: ChunkGroup {
            id: 4,
            dataset_id: 2,
            name: "g".to_string(),
            tag_set: None,
        },
        group,
        config: test_config(),
        attempt_number: 1,
    };
    let err = ServiceError::InternalServerError("boom".to_string());
    match read_group_error_to_queue(msg, &err) {
        RetryDecision::Requeue(bumped) => assert_eq!(bumped.attempt_number, 2),
        _ => panic!("expected a requeue"),
    }
    let msg2 = GroupUpdateMessage {
        prev_group: ChunkGroup {
            id: 4,
            dataset_id: 2,
            name: "g".to_string(),
            tag_set: None,
        },
        group: ChunkGroup {
            id: 4,
            dataset_id: 2,
            name: "g".to_string(),
            tag_set: None,
        },
        config: test_config(),
        attempt_number: 2,
    };
    match read_group_error_to_queue(msg2, &err) {
        RetryDecision::GiveUp(EventType::GroupChunksActionFailed { group_id, error }) => {
            assert_eq!(group_id, 4);
            assert_eq!(error, "boom".to_string());
        },
        _ => panic!("expected a terminal failure"),
    }
}

#[test]
fn backoff_doubles_and_caps() {
    assert_eq!(next_backoff(10, 300), 20);
    assert_eq!(next_backoff(150, 300), 300);
    assert_eq!(next_backoff(200, 300), 300);
}

#[test]
fn queue_reserves_from_tail_and_requeues_to_head() {
    let mut q: QueueState<u64> = QueueState::new();
    q.produce(1);
    q.produce(2);
    // 2 is at the head, 1 at the tail; reserve takes the tail.
    assert_eq!(q.depth(), 2);
    assert!(q.reserve());
    assert_eq!(q.in_flight_depth(), 1);
    assert_eq!(q.in_flight[0], 1);
    let m = q.ack_front();
    assert_eq!(m, 1);
    assert_eq!(q.in_flight_depth(), 0);
    let mut empty: QueueState<u64> = QueueState::new();
    assert!(!empty.reserve());
}

#[test]
fn locked_datasets_refuse_deletion() {
    let mut config = test_config();
    config.locked = true;
    assert!(ingest_core::delete::soft_delete_dataset_by_id_query(1, config).is_err());
    assert!(ingest_core::delete::clear_dataset_by_dataset_id_query(1, config).is_err());
    config.locked = false;
    let msg = ingest_core::delete::clear_dataset_by_dataset_id_query(1, config).expect("plan");
    assert!(msg.empty_dataset);
    assert_eq!(msg.attempt_number, 0);
    let msg = ingest_core::delete::soft_delete_dataset_by_id_query(1, config).expect("plan");
    assert!(!msg.empty_dataset);
}

#[test]
fn delete_pipeline_pages_in_batches() {
    let dataset = 6u128;
    let other = 7u128;
    let mut rel = RelationalStore::new();
    let mut index = VectorStore::new();
    let mut events = Vec::new();
    let mut points = Vec::new();
    for k in 0..5u128 {
        let msg = message(k + 1, k + 101, dataset, "x", None);
        let data = prepare_chunk_data(&msg, dataset, k + 101, 0, None);
        rel.insert_chunk_metadata_query(data.chunk_metadata, &None, false)
            .expect("insert");
        points.push(ingest_core::models::PointData {
            point_id: k + 101,
            dense: vec![1i64; 1536],
            sparse: vec![(0, 0)],
            payload: ingest_core::models::QdrantPayload {
                dataset_id: dataset,
                group_ids: vec![],
                group_tag_set: None,
                time_stamp: None,
                location: None,
                weight: 0,
                num_value: None,
                tracking_id: None,
                metadata: None,
            },
        });
    }
    let keeper = message(50, 500, other, "stay", None);
    let keeper_data = prepare_chunk_data(&keeper, other, 500, 0, None);
    rel.insert_chunk_metadata_query(keeper_data.chunk_metadata, &None, false)
        .expect("insert keeper");
    index.bulk_upsert_qdrant_points_query(points);
    assert_eq!(rel.chunks.len(), 6);
    assert_eq!(index.points.len(), 5);

    ingest_core::delete::delete_chunks_in_dataset(dataset, &mut rel, &mut index, &mut events, 2)
        .expect("delete");
    // Only the other dataset's row survives; every point of the cleared
    // dataset is gone; three pages of sizes 2, 2 and 1 were recorded.
    assert_eq!(rel.chunks.len(), 1);
    assert_eq!(rel.chunks[0].dataset_id, other);
    assert_eq!(index.points.len(), 0);
    assert_eq!(events.len(), 3);
    match &events[0].event_type {
        EventType::BulkChunksDeleted { message } => {
            assert_eq!(message, &"Deleted 2 chunks".to_string())
        },
        _ => panic!("expected a deletion event"),
    }
    match &events[2].event_type {
        EventType::BulkChunksDeleted { message } => {
            assert_eq!(message, &"Deleted 1 chunks".to_string())
        },
        _ => panic!("expected a deletion event"),
    }
}

#[test]
fn empty_tracking_id_is_canonicalised_away() {
    let dataset = 1u128;
    let msg = message(1, 11, dataset, "x", Some(""));
    let data = prepare_chunk_data(&msg, dataset, 11, 42, None);
    assert_eq!(data.chunk_metadata.tracking_id, None);
    assert_eq!(data.chunk_metadata.created_at, 42);
    assert_eq!(data.chunk_metadata.qdrant_point_id, Some(11));
}

#[test]
fn raw_vector_wins_over_service_embeddings() {
    let dataset = 1u128;
    let mut msg = message(1, 11, dataset, "x", None);
    msg.chunk.chunk_vector = Some(vec![5i64; 384]);
    let r = resolve_embedding(&msg, &vec![vec![1i64; 1536]]).expect("raw");
    assert_eq!(r, vec![5i64; 384]);
    let msg2 = message(2, 12, dataset, "x", None);
    let r = resolve_embedding(&msg2, &vec![vec![1i64; 1536]]).expect("direct");
    assert_eq!(r.len(), 1536);
    assert!(resolve_embedding(&msg2, &Vec::new()).is_err());
}

#[test]
fn routing_prefers_per_message_path_when_needed() {
    let dataset = 1u128;
    let fast = ingest_core::models::BulkUploadIngestionMessage {
        attempt_number: 0,
        dataset_id: dataset,
        dataset_configuration: test_config(),
        ingestion_messages: vec![message(1, 11, dataset, "x", None)],
    };
    assert!(!bulk_upload_requires_per_message_path(&fast));
    let mut upserting = fast;
    upserting.ingestion_messages[0].upsert_by_tracking_id = true;
    assert!(bulk_upload_requires_per_message_path(&upserting));
    let mut collisions = ingest_core::models::BulkUploadIngestionMessage {
        attempt_number: 0,
        dataset_id: dataset,
        dataset_configuration: test_config(),
        ingestion_messages: vec![],
    };
    collisions.dataset_configuration.collisions_enabled = true;
    assert!(bulk_upload_requires_per_message_path(&collisions));
}

#[test]
fn bulk_insert_drops_tracking_duplicates_silently() {
    let dataset = 2u128;
    let mut rel = RelationalStore::new();
    let mut index = VectorStore::new();
    let mut pg_queue = Vec::new();
    let data = vec![
        prepare_chunk_data(&message(1, 11, dataset, "a", Some("t")), dataset, 11, 0, None),
        prepare_chunk_data(&message(2, 12, dataset, "b", Some("t")), dataset, 12, 0, None),
        prepare_chunk_data(&message(3, 13, dataset, "c", Some("u")), dataset, 13, 0, None),
    ];
    let embeddings = vec![vec![1i64; 1536], vec![1i64; 1536], vec![1i64; 1536]];
    let splades = vec![vec![(0, 0)], vec![(0, 0)], vec![(0, 0)]];
    let r = bulk_upload_chunks(
        &data,
        dataset,
        test_config(),
        &mut rel,
        &mut index,
        &embeddings,
        &splades,
        true,
        false,
        &mut pg_queue,
    )
    .expect("bulk");
    // The second message shares the first's tracking key and is dropped.
    assert_eq!(r, Some(vec![1u128, 3u128]));
    assert_eq!(rel.chunks.len(), 2);
}

#[test]
fn queued_write_order_defers_relational_inserts() {
    let dataset = 2u128;
    let mut rel = RelationalStore::new();
    let mut index = VectorStore::new();
    let mut pg_queue = Vec::new();
    let data = vec![prepare_chunk_data(
        &message(1, 11, dataset, "a", Some("t")),
        dataset,
        11,
        0,
        None,
    )];
    let embeddings = vec![vec![1i64; 1536]];
    let splades = vec![vec![(0, 0)]];
    let r = bulk_upload_chunks(
        &data,
        dataset,
        test_config(),
        &mut rel,
        &mut index,
        &embeddings,
        &splades,
        true,
        true,
        &mut pg_queue,
    )
    .expect("bulk");
    assert_eq!(r, None);
    // Vectors were written first; the relational write waits in the queue.
    assert_eq!(rel.chunks.len(), 0);
    assert_eq!(index.points.len(), 1);
    assert_eq!(pg_queue.len(), 1);
    assert_eq!(pg_queue[0].attempt_number, 0);
    assert_eq!(pg_queue[0].chunk_metadatas.chunk_metadata.id, 1);
}

#[test]
fn per_message_path_collects_successes_in_order() {
    let dataset = 2u128;
    let mut rel = RelationalStore::new();
    let mut index = VectorStore::new();
    let data = vec![
        prepare_chunk_data(&message(1, 11, dataset, "a", Some("t")), dataset, 11, 0, None),
        prepare_chunk_data(&message(2, 12, dataset, "b", Some("u")), dataset, 12, 0, None),
    ];
    let envs = vec![
        MessageEnv {
            embedding: vec![1i64; 1536],
            splade_vector: vec![(0, 0)],
            top_match: None,
            vector_write_ok: true,
        },
        MessageEnv {
            embedding: vec![1i64; 1536],
            splade_vector: vec![(0, 0)],
            top_match: None,
            vector_write_ok: false,
        },
    ];
    let r = bulk_upload_chunks_per_message(&data, test_config(), &mut rel, &mut index, &envs);
    // The second message's vector write failed and was rolled back.
    assert_eq!(r, Some(vec![1u128]));
    assert_eq!(rel.chunks.len(), 1);
    assert_eq!(index.points.len(), 1);
}

#[test]
fn update_rewrites_row_and_point() {
    let dataset = 2u128;
    let mut rel = RelationalStore::new();
    let mut index = VectorStore::new();
    let seeded = prepare_chunk_data(&message(1, 11, dataset, "old", Some("t")), dataset, 11, 0, None);
    rel.insert_chunk_metadata_query(seeded.chunk_metadata, &None, false)
        .expect("seed");
    index.bulk_upsert_qdrant_points_query(vec![ingest_core::models::PointData {
        point_id: 11,
        dense: vec![1i64; 1536],
        sparse: vec![(0, 0)],
        payload: ingest_core::models::QdrantPayload {
            dataset_id: dataset,
            group_ids: vec![],
            group_tag_set: None,
            time_stamp: None,
            location: None,
            weight: 0,
            num_value: None,
            tracking_id: None,
            metadata: None,
        },
    }]);
    let fresh = prepare_chunk_data(&message(1, 99, dataset, "new", Some("t")), dataset, 99, 7, None);
    let update = ingest_core::models::UpdateIngestionMessage {
        chunk_metadata: fresh.chunk_metadata,
        group_ids: None,
        convert_html_to_text: None,
        boost_phrase: None,
        dataset_id: dataset,
        server_dataset_config: test_config(),
        attempt_number: 0,
    };
    let new_embedding = vec![3i64; 1536];
    update_chunk(&update, &mut rel, &mut index, new_embedding.clone(), vec![(0, 0)], 7)
        .expect("update");
    assert_eq!(rel.chunks.len(), 1);
    assert_eq!(rel.chunks[0].chunk_html, Some("new".to_string()));
    assert_eq!(rel.chunks[0].updated_at, 7);
    // The row keeps its identity and point.
    assert_eq!(rel.chunks[0].id, 1);
    assert_eq!(rel.chunks[0].qdrant_point_id, Some(11));
    assert_eq!(index.points[0].dense, new_embedding);
}

#[test]
fn group_tags_merge_with_consecutive_dedup() {
    let mut rel = RelationalStore::new();
    rel.add_group(ChunkGroup {
        id: 1,
        dataset_id: 9,
        name: "g1".to_string(),
        tag_set: Some(vec![Some("x".to_string()), Some("x".to_string())]),
    });
    rel.add_group(ChunkGroup {
        id: 2,
        dataset_id: 9,
        name: "g2".to_string(),
        tag_set: Some(vec![Some("y".to_string())]),
    });
    let tags = chunk_group_tags(&rel, &Some(vec![1, 2])).expect("tags");
    assert_eq!(tags, vec![Some("x".to_string()), Some("y".to_string())]);
    assert_eq!(chunk_group_tags(&rel, &None), None);
}

#[test]
fn live_preparation_parses_timestamps_and_keeps_fixed_point_ids() {
    let dataset = 4u128;
    let mut msg = message(1, 11, dataset, "x", Some("t"));
    msg.chunk.time_stamp = Some("2020-01-01T00:00:00Z".to_string());
    let (data, _) = ingest_core::pipeline::prepare_chunk_data_live(&msg, dataset);
    // The producer fixed the point id; the timestamp text parses to
    // its epoch seconds.
    assert_eq!(data.chunk_metadata.qdrant_point_id, Some(11));
    assert_eq!(data.chunk_metadata.time_stamp, Some(1577836800));
    assert_eq!(data.content, "x".to_string());

    let mut unparseable = message(2, 12, dataset, "x", None);
    unparseable.chunk.time_stamp = Some("not a date".to_string());
    let (data, _) = ingest_core::pipeline::prepare_chunk_data_live(&unparseable, dataset);
    assert_eq!(data.chunk_metadata.time_stamp, None);

    // Without a producer-fixed point id a fresh one is drawn.
    let mut fresh = message(3, 0, dataset, "x", None);
    fresh.ingest_specific_chunk_metadata.qdrant_point_id = None;
    let (data, _) = ingest_core::pipeline::prepare_chunk_data_live(&fresh, dataset);
    assert!(data.chunk_metadata.qdrant_point_id.is_some());
}

#[test]
fn update_of_a_missing_chunk_is_rejected() {
    let dataset = 2u128;
    let mut rel = RelationalStore::new();
    let mut index = VectorStore::new();
    let fresh = prepare_chunk_data(&message(1, 11, dataset, "x", None), dataset, 11, 0, None);
    let update = ingest_core::models::UpdateIngestionMessage {
        chunk_metadata: fresh.chunk_metadata,
        group_ids: None,
        convert_html_to_text: None,
        boost_phrase: None,
        dataset_id: dataset,
        server_dataset_config: test_config(),
        attempt_number: 0,
    };
    match update_chunk(&update, &mut rel, &mut index, vec![1i64; 1536], vec![(0, 0)], 0) {
        Err(ServiceError::BadRequest(_)) => {},
        _ => panic!("expected a rejected update"),
    }

    // A row in another dataset is not found.
    let seeded = prepare_chunk_data(&message(9, 90, 3u128, "y", None), 3u128, 90, 0, None);
    rel.insert_chunk_metadata_query(seeded.chunk_metadata, &None, false)
        .expect("seed");
    let fresh2 = prepare_chunk_data(&message(9, 91, dataset, "z", None), dataset, 91, 0, None);
    let cross = ingest_core::models::UpdateIngestionMessage {
        chunk_metadata: fresh2.chunk_metadata,
        group_ids: None,
        convert_html_to_text: None,
        boost_phrase: None,
        dataset_id: dataset,
        server_dataset_config: test_config(),
        attempt_number: 0,
    };
    match update_chunk(&cross, &mut rel, &mut index, vec![1i64; 1536], vec![(0, 0)], 0) {
        Err(ServiceError::NotFound(_)) => {},
        _ => panic!("expected not found"),
    }
}

#[test]
fn group_retagging_rewrites_member_point_payloads() {
    let dataset = 12u128;
    let mut rel = RelationalStore::new();
    let mut index = VectorStore::new();
    rel.add_group(ChunkGroup {
        id: 1,
        dataset_id: dataset,
        name: "g".to_string(),
        tag_set: Some(vec![Some("fresh".to_string())]),
    });
    let data = prepare_chunk_data(&{
        let mut m = message(1, 11, dataset, "x", None);
        m.chunk.group_ids = Some(vec![1]);
        m
    }, dataset, 11, 0, None);
    let group_ids = data.group_ids.clone();
    rel.insert_chunk_metadata_query(data.chunk_metadata, &group_ids, false)
        .expect("insert member");
    index.bulk_upsert_qdrant_points_query(vec![ingest_core::models::PointData {
        point_id: 11,
        dense: vec![1i64; 1536],
        sparse: vec![(0, 0)],
        payload: ingest_core::models::QdrantPayload {
            dataset_id: dataset,
            group_ids: vec![1],
            group_tag_set: Some(vec![Some("stale".to_string())]),
            time_stamp: None,
            location: None,
            weight: 0,
            num_value: None,
            tracking_id: None,
            metadata: None,
        },
    }]);
    let prev = ChunkGroup {
        id: 1,
        dataset_id: dataset,
        name: "g".to_string(),
        tag_set: Some(vec![Some("stale".to_string())]),
    };
    let group = ChunkGroup {
        id: 1,
        dataset_id: dataset,
        name: "g".to_string(),
        tag_set: Some(vec![Some("fresh".to_string())]),
    };
    ingest_core::pipeline::update_grouped_chunks_query(&prev, &group, &rel, &mut index)
        .expect("retag");
    assert_eq!(
        index.points[0].payload.group_tag_set,
        Some(vec![Some("fresh".to_string())])
    );
    // Everything else of the point is untouched.
    assert_eq!(index.points[0].dense, vec![1i64; 1536]);
    assert_eq!(index.points[0].payload.dataset_id, dataset);
}

#[test]
fn poison_messages_are_discarded_from_in_flight() {
    let mut q: QueueState<ingest_core::models::IngestionMessage> = QueueState::new();
    q.produce(ingest_core::models::IngestionMessage::BulkUpload(
        ingest_core::models::BulkUploadIngestionMessage {
            attempt_number: 0,
            dataset_id: 1,
            dataset_configuration: test_config(),
            ingestion_messages: vec![],
        },
    ));
    assert!(q.reserve());
    assert_eq!(q.in_flight_depth(), 1);
    ingest_core::worker::discard_reserved(&mut q);
    assert_eq!(q.in_flight_depth(), 0);
    assert_eq!(q.depth(), 0);
}

#[test]
fn group_worker_settles_success_and_retry() {
    let mut q: QueueState<GroupUpdateMessage> = QueueState::new();
    let mut events = Vec::new();
    let job = GroupUpdateMessage {
        prev_group: ChunkGroup { id: 4, dataset_id: 2, name: "g".to_string(), tag_set: None },
        group: ChunkGroup { id: 4, dataset_id: 2, name: "g".to_string(), tag_set: None },
        config: test_config(),
        attempt_number: 0,
    };
    q.produce(job);
    assert!(q.reserve());
    let outcome = ingest_core::worker::settle_group_update_result(&mut q, &mut events, Ok(()));
    assert_eq!(outcome, ingest_core::worker::DispatchOutcome::Succeeded);
    assert_eq!(events.len(), 1);
    assert_eq!(events[0].dataset_id, 2);
    match &events[0].event_type {
        EventType::GroupChunksUpdated { group_id } => assert_eq!(*group_id, 4),
        _ => panic!("expected a group updated event"),
    }
    assert_eq!(q.in_flight_depth(), 0);
}
