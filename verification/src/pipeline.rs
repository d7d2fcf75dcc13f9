use vstd::prelude::*;
use crate::config::{ServerDatasetConfiguration, SCORE_ONE};
use crate::dup::{clone_opt_boost_phrase, clone_opt_string, copy_opt_vec, copy_vec};
use crate::errors::ServiceError;
use crate::models::{
    same_tracking_key, view_opt_string, view_opt_vec, view_string_list, view_tag_list, ChunkData,
    ChunkDataView, ChunkGroupView, ChunkMetadata, ChunkMetadataView, ChunkReqPayloadView,
    DenseVector, SparseVector, UploadIngestionMessage, UploadIngestionMessageView,
};
use crate::outside::{new_point_id, now_timestamp, parse_timestamp};
use crate::text::{convert_html_to_text, spec_coarse_chunks, spec_strip_html};

verus! {

/// How many words one coarse chunk holds on the split-average path.
pub const SPLIT_AVG_TARGET_WORDS: usize = 20;

/// The normalised content of a tenant-supplied chunk: its HTML with
/// tags stripped, unless the message opts out of conversion.
pub open spec fn spec_content_of(chunk: ChunkReqPayloadView) -> Seq<char> {
    let html = if chunk.chunk_html is Some {
        chunk.chunk_html->0
    } else {
        Seq::empty()
    };
    if chunk.convert_html_to_text == Some(false) {
        html
    } else {
        spec_strip_html(html)
    }
}

/// Tracking-id canonicalisation: an empty tracking id counts as none.
pub open spec fn spec_canonical_tracking(t: Option<Seq<char>>) -> Option<Seq<char>> {
    match t {
        Some(s) => if s.len() == 0 {
            None
        } else {
            Some(s)
        },
        None => None,
    }
}

/// The chunk row data preparation derives from one upload message,
/// given the identity and clock values of this run: the fresh (or
/// producer-fixed) point id, the creation instant, and the parsed
/// timestamp.
pub open spec fn spec_prepared_metadata(
    msg: UploadIngestionMessageView,
    dataset_id: u128,
    point_id: u128,
    now: i64,
    ts: Option<i64>,
) -> ChunkMetadataView {
    ChunkMetadataView {
        id: msg.ingest_specific_chunk_metadata.id,
        link: msg.chunk.link,
        qdrant_point_id: Some(point_id),
        created_at: now,
        updated_at: now,
        chunk_html: msg.chunk.chunk_html,
        metadata: msg.chunk.metadata,
        tracking_id: spec_canonical_tracking(msg.chunk.tracking_id),
        time_stamp: ts,
        location: msg.chunk.location,
        dataset_id: dataset_id,
        weight: if msg.chunk.weight is Some {
            msg.chunk.weight->0
        } else {
            0
        },
        image_urls: match msg.chunk.image_urls {
            Some(us) => Some(us.map_values(|u: Seq<char>| Some(u))),
            None => None,
        },
        tag_set: match msg.chunk.tag_set {
            Some(ts2) => Some(ts2.map_values(|t: Seq<char>| Some(t))),
            None => None,
        },
        num_value: msg.chunk.num_value,
    }
}

/// The prepared chunk of one upload message.
pub open spec fn spec_prepared_chunk_data(
    msg: UploadIngestionMessageView,
    dataset_id: u128,
    point_id: u128,
    now: i64,
    ts: Option<i64>,
) -> ChunkDataView {
    ChunkDataView {
        chunk_metadata: spec_prepared_metadata(msg, dataset_id, point_id, now, ts),
        content: spec_content_of(msg.chunk),
        group_ids: msg.chunk.group_ids,
        upsert_by_tracking_id: msg.upsert_by_tracking_id,
        boost_phrase: msg.chunk.boost_phrase,
    }
}

fn tags_from_strings(tags: &Option<Vec<String>>) -> (r: Option<Vec<Option<String>>>)
    ensures
        view_tag_list(r) == (match view_string_list(*tags) {
            Some(ts) => Some(ts.map_values(|t: Seq<char>| Some(t))),
            None => None::<Seq<Option<Seq<char>>>>,
        }),
{
    match tags {
        Some(list) => {
            let mut out: Vec<Option<String>> = Vec::new();
            let mut i: usize = 0;
            while i < list.len()
                invariant
                    i <= list@.len(),
                    out@.map_values(|t: Option<String>| view_opt_string(t)) =~= list@.map_values(
                        |t: String| t@,
                    ).map_values(|t: Seq<char>| Some(t)).subrange(0, i as int),
                decreases list@.len() - i,
            {
                out.push(Some(list[i].clone()));
                proof {
                    let f = |t: Option<String>| view_opt_string(t);
                    let m1 = list@.map_values(|t: String| t@).map_values(|t: Seq<char>| Some(t));
                    assert(out@.map_values(f) =~= out@.drop_last().map_values(f).push(
                        Some(list@[i as int]@),
                    ));
                    assert(m1[i as int] == Some(list@[i as int]@));
                    assert(m1.subrange(0, i + 1) =~= m1.subrange(0, i as int).push(m1[i as int]));
                    assert(out@.map_values(f) =~= m1.subrange(0, i + 1));
                }
                i = i + 1;
            }
            proof {
                assert(out@.map_values(|t: Option<String>| view_opt_string(t))
                    =~= list@.map_values(|t: String| t@).map_values(|t: Seq<char>| Some(t)));
            }
            Some(out)
        },
        None => None,
    }
}

/// Per-message data preparation with every environment value made
/// explicit: `point_id` is the point the chunk will own, `now` the
/// clock reading, and `time_stamp` the parsed timestamp.  Normalises
/// the content, canonicalises the tracking id and shapes the tag set.
pub fn prepare_chunk_data(
    message: &UploadIngestionMessage,
    dataset_id: u128,
    point_id: u128,
    now: i64,
    time_stamp: Option<i64>,
) -> (r: ChunkData)
    ensures
        r@ == spec_prepared_chunk_data(message@, dataset_id, point_id, now, time_stamp),
{
    let content: String = match message.chunk.convert_html_to_text {
        Some(false) => match &message.chunk.chunk_html {
            Some(h) => h.clone(),
            None => String::new(),
        },
        _ => match &message.chunk.chunk_html {
            Some(h) => convert_html_to_text(h.as_str()),
            None => convert_html_to_text(""),
        },
    };
    proof {
        reveal_strlit("");
        assert(""@ =~= Seq::<char>::empty());
        assert(content@ == spec_content_of(message@.chunk));
    }
    let tracking_id: Option<String> = match &message.chunk.tracking_id {
        Some(t) => {
            if t.as_str().is_empty() {
                None
            } else {
                Some(t.clone())
            }
        },
        None => None,
    };
    let tag_set = tags_from_strings(&message.chunk.tag_set);
    let image_urls = tags_from_strings(&message.chunk.image_urls);
    let weight: i64 = match message.chunk.weight {
        Some(w) => w,
        None => 0,
    };
    let chunk_metadata = ChunkMetadata {
        id: message.ingest_specific_chunk_metadata.id,
        link: clone_opt_string(&message.chunk.link),
        qdrant_point_id: Some(point_id),
        created_at: now,
        updated_at: now,
        chunk_html: clone_opt_string(&message.chunk.chunk_html),
        metadata: clone_opt_string(&message.chunk.metadata),
        tracking_id,
        time_stamp,
        location: message.chunk.location,
        dataset_id,
        weight,
        image_urls,
        tag_set,
        num_value: message.chunk.num_value,
    };
    proof {
        assert(chunk_metadata@ =~= spec_prepared_metadata(
            message@,
            dataset_id,
            point_id,
            now,
            time_stamp,
        ));
    }
    let r = ChunkData {
        chunk_metadata,
        content,
        group_ids: copy_opt_vec(&message.chunk.group_ids),
        upsert_by_tracking_id: message.upsert_by_tracking_id,
        boost_phrase: clone_opt_boost_phrase(&message.chunk.boost_phrase),
    };
    proof {
        assert(r@ =~= spec_prepared_chunk_data(message@, dataset_id, point_id, now, time_stamp));
    }
    r
}

/// Per-message data preparation against the live environment: the
/// point id comes from the producer or is drawn fresh, the clock is
/// read, and the timestamp text (if any) is parsed; an unparseable
/// timestamp is dropped, as on the bulk path.  The ghost result names
/// the environment values (point id, clock, parsed timestamp) the
/// preparation used.
pub fn prepare_chunk_data_live(message: &UploadIngestionMessage, dataset_id: u128) -> (r: (
    ChunkData,
    Ghost<(u128, i64, Option<i64>)>,
))
    ensures
        r.0@ == spec_prepared_chunk_data(message@, dataset_id, r.1@.0, r.1@.1, r.1@.2),
        message@.ingest_specific_chunk_metadata.qdrant_point_id is Some ==> r.1@.0
            == message@.ingest_specific_chunk_metadata.qdrant_point_id->0,
        message@.chunk.time_stamp is None ==> r.1@.2 is None,
{
    let point_id: u128 = match message.ingest_specific_chunk_metadata.qdrant_point_id {
        Some(p) => p,
        None => new_point_id(),
    };
    let now: i64 = now_timestamp();
    let ts: Option<i64> = match &message.chunk.time_stamp {
        Some(text) => parse_timestamp(text.as_str()),
        None => None,
    };
    let r = prepare_chunk_data(message, dataset_id, point_id, now, ts);
    (r, Ghost((point_id, now, ts)))
}

/// The texts the embedding service is sent for one chunk: nothing when
/// the message supplies its own vector, the coarse sub-chunks on the
/// split-average path, and the content itself otherwise.
pub open spec fn spec_embedding_inputs(chunk: ChunkReqPayloadView, content: Seq<char>) -> Seq<
    Seq<char>,
> {
    if chunk.chunk_vector is Some {
        Seq::empty()
    } else if chunk.split_avg == Some(true) {
        spec_coarse_chunks(content, SPLIT_AVG_TARGET_WORDS as int)
    } else {
        seq![content]
    }
}

/// Lists the texts to embed for one prepared chunk.
pub fn embedding_inputs(message: &UploadIngestionMessage, data: &ChunkData) -> (r: Vec<String>)
    ensures
        r@.map_values(|s: String| s@) == spec_embedding_inputs(message@.chunk, data.content@),
{
    if message.chunk.chunk_vector.is_some() {
        let r: Vec<String> = Vec::new();
        proof {
            assert(r@.map_values(|s: String| s@) =~= Seq::<Seq<char>>::empty());
        }
        r
    } else {
        let split: bool = match message.chunk.split_avg {
            Some(true) => true,
            _ => false,
        };
        if split {
            crate::text::coarse_doc_chunker(data.content.as_str(), SPLIT_AVG_TARGET_WORDS)
        } else {
            let mut r: Vec<String> = Vec::new();
            r.push(data.content.clone());
            proof {
                assert(r@.map_values(|s: String| s@) =~= seq![data.content@]);
            }
            r
        }
    }
}

/// The dense embedding one chunk ends up with: the caller-supplied raw
/// vector, the mean of the sub-chunk embeddings on the split-average
/// path, or the first (and only) embedding of the content.  Fails when
/// the split-average input is empty or ragged, or when the service
/// returned nothing for the content.
pub fn resolve_embedding(
    message: &UploadIngestionMessage,
    service_embeddings: &Vec<DenseVector>,
) -> (r: Result<DenseVector, ServiceError>)
    ensures
        message@.chunk.chunk_vector is Some ==> r is Ok && r->Ok_0@ == message@.chunk.chunk_vector->0,
        message@.chunk.chunk_vector is None && message@.chunk.split_avg == Some(true) ==> {
            &&& (r is Ok <==> service_embeddings@.len() > 0 && crate::text::spec_uniform_arity(
                service_embeddings@.map_values(|v: Vec<i64>| v@),
                service_embeddings@[0]@.len() as int,
            ))
            &&& r is Ok ==> r->Ok_0@.len() == service_embeddings@[0]@.len()
        },
        message@.chunk.chunk_vector is None && message@.chunk.split_avg != Some(true) ==> {
            &&& (r is Ok <==> service_embeddings@.len() > 0)
            &&& r is Ok ==> r->Ok_0@ == service_embeddings@[0]@
        },
{
    match &message.chunk.chunk_vector {
        Some(v) => Ok(copy_vec(v)),
        None => {
            let split: bool = match message.chunk.split_avg {
                Some(true) => true,
                _ => false,
            };
            if split {
                crate::text::average_embeddings(service_embeddings)
            } else {
                if service_embeddings.len() == 0 {
                    Err(ServiceError::InternalServerError("no embedding returned".to_owned()))
                } else {
                    Ok(copy_vec(&service_embeddings[0]))
                }
            }
        },
    }
}

/// The tag lists of several groups, concatenated in order; a group
/// without tags contributes nothing.
pub open spec fn spec_concat_group_tags(gs: Seq<ChunkGroupView>) -> Seq<Option<Seq<char>>>
    decreases gs.len(),
{
    if gs.len() == 0 {
        Seq::empty()
    } else {
        (match gs[0].tag_set {
            Some(t) => t,
            None => Seq::empty(),
        }) + spec_concat_group_tags(gs.skip(1))
    }
}

/// Consecutive duplicates removed, keeping the last of each run.
pub open spec fn spec_dedup_tags(s: Seq<Option<Seq<char>>>) -> Seq<Option<Seq<char>>>
    decreases s.len(),
{
    if s.len() == 0 {
        Seq::empty()
    } else if s.len() == 1 {
        s
    } else if s[0] == s[1] {
        spec_dedup_tags(s.skip(1))
    } else {
        seq![s[0]] + spec_dedup_tags(s.skip(1))
    }
}

/// The merged group tag set a new point's payload carries: the tag
/// lists of the chunk's groups, concatenated and with consecutive
/// duplicates removed — or nothing when the chunk names no groups.
pub open spec fn spec_chunk_tags(
    groups: Seq<ChunkGroupView>,
    group_ids: Option<Seq<u128>>,
) -> Option<Seq<Option<Seq<char>>>> {
    match group_ids {
        Some(ids) => Some(
            spec_dedup_tags(
                spec_concat_group_tags(crate::store::spec_groups_with_ids(groups, ids)),
            ),
        ),
        None => None,
    }
}

fn opt_string_eq(a: &Option<String>, b: &Option<String>) -> (r: bool)
    ensures
        r == (view_opt_string(*a) == view_opt_string(*b)),
{
    match (a, b) {
        (Some(x), Some(y)) => *x == *y,
        (None, None) => true,
        _ => false,
    }
}

fn dedup_tags(tags: Vec<Option<String>>) -> (r: Vec<Option<String>>)
    ensures
        r@.map_values(|t: Option<String>| view_opt_string(t)) == spec_dedup_tags(
            tags@.map_values(|t: Option<String>| view_opt_string(t)),
        ),
{
    let ghost tv = tags@.map_values(|t: Option<String>| view_opt_string(t));
    let mut out: Vec<Option<String>> = Vec::new();
    let mut i: usize = 0;
    proof {
        assert(tv.skip(0) =~= tv);
        assert(out@.map_values(|t: Option<String>| view_opt_string(t)) =~= Seq::<
            Option<Seq<char>>,
        >::empty());
    }
    while i < tags.len()
        invariant
            i <= tags@.len(),
            tv == tags@.map_values(|t: Option<String>| view_opt_string(t)),
            out@.map_values(|t: Option<String>| view_opt_string(t)) + spec_dedup_tags(
                tv.skip(i as int),
            ) =~= spec_dedup_tags(tv),
        decreases tags@.len() - i,
    {
        let ghost rem = tv.skip(i as int);
        proof {
            assert(rem[0] == tv[i as int]);
            assert(rem.skip(1) =~= tv.skip(i + 1));
            if i + 1 < tags@.len() {
                assert(rem[1] == tv[i + 1]);
            }
        }
        let keep: bool = if i + 1 < tags.len() {
            !opt_string_eq(&tags[i], &tags[i + 1])
        } else {
            true
        };
        if keep {
            out.push(clone_opt_string(&tags[i]));
            proof {
                assert(out@.map_values(|t: Option<String>| view_opt_string(t))
                    =~= out@.drop_last().map_values(|t: Option<String>| view_opt_string(t)).push(
                    tv[i as int],
                ));
            }
        }
        proof {
            assert(out@.map_values(|t: Option<String>| view_opt_string(t)) + spec_dedup_tags(
                tv.skip(i + 1),
            ) =~= spec_dedup_tags(tv));
        }
        i = i + 1;
    }
    proof {
        assert(tv.skip(i as int) =~= Seq::<Option<Seq<char>>>::empty());
        assert(out@.map_values(|t: Option<String>| view_opt_string(t)) =~= spec_dedup_tags(tv));
    }
    out
}

/// Merges the tag sets of the chunk's groups for its point payload:
/// the groups' tag lists, in order, with consecutive duplicates
/// removed; nothing when the chunk names no groups.
pub fn chunk_group_tags(
    rel: &crate::store::RelationalStore,
    group_ids: &Option<Vec<u128>>,
) -> (r: Option<Vec<Option<String>>>)
    ensures
        view_tag_list(r) == spec_chunk_tags(rel.groups_view(), view_opt_vec(*group_ids)),
{
    match group_ids {
        Some(ids) => {
            let groups = rel.get_groups_from_group_ids_query(ids);
            let ghost gv = groups@.map_values(|g: crate::models::ChunkGroup| g@);
            let mut tags: Vec<Option<String>> = Vec::new();
            let mut i: usize = 0;
            proof {
                assert(gv.skip(0) =~= gv);
                assert(tags@.map_values(|t: Option<String>| view_opt_string(t)) =~= Seq::<
                    Option<Seq<char>>,
                >::empty());
            }
            while i < groups.len()
                invariant
                    i <= groups@.len(),
                    gv == groups@.map_values(|g: crate::models::ChunkGroup| g@),
                    tags@.map_values(|t: Option<String>| view_opt_string(t))
                        + spec_concat_group_tags(gv.skip(i as int)) =~= spec_concat_group_tags(gv),
                decreases groups@.len() - i,
            {
                let ghost rem = gv.skip(i as int);
                proof {
                    assert(rem[0] == gv[i as int]);
                    assert(rem.skip(1) =~= gv.skip(i + 1));
                }
                match &groups[i].tag_set {
                    Some(list) => {
                        let mut k: usize = 0;
                        let ghost base = tags@.map_values(
                            |t: Option<String>| view_opt_string(t),
                        );
                        while k < list.len()
                            invariant
                                k <= list@.len(),
                                i < groups@.len(),
                                groups@[i as int].tag_set is Some,
                                list@ == groups@[i as int].tag_set->0@,
                                gv == groups@.map_values(|g: crate::models::ChunkGroup| g@),
                                tags@.map_values(|t: Option<String>| view_opt_string(t))
                                    =~= base + list@.map_values(
                                    |t: Option<String>| view_opt_string(t),
                                ).subrange(0, k as int),
                            decreases list@.len() - k,
                        {
                            tags.push(clone_opt_string(&list[k]));
                            proof {
                                let f = |t: Option<String>| view_opt_string(t);
                                assert(tags@.map_values(f) =~= tags@.drop_last().map_values(
                                    f,
                                ).push(view_opt_string(list@[k as int])));
                                assert(list@.map_values(f).subrange(0, k + 1)
                                    =~= list@.map_values(f).subrange(0, k as int).push(
                                    view_opt_string(list@[k as int]),
                                ));
                                assert(list@.map_values(f)[k as int] == view_opt_string(
                                    list@[k as int],
                                ));
                                assert(base + list@.map_values(f).subrange(0, k + 1) =~= (base
                                    + list@.map_values(f).subrange(0, k as int)).push(
                                    list@.map_values(f)[k as int],
                                ));
                                assert(tags@.map_values(f) =~= base + list@.map_values(
                                    f,
                                ).subrange(0, k + 1));
                            }
                            k = k + 1;
                        }
                        proof {
                            let f = |t: Option<String>| view_opt_string(t);
                            assert(list@.map_values(f).subrange(0, list@.len() as int)
                                =~= list@.map_values(f));
                            assert(gv[i as int].tag_set == Some(list@.map_values(f)));
                            assert(tags@.map_values(f) + spec_concat_group_tags(gv.skip(i + 1))
                                =~= spec_concat_group_tags(gv));
                        }
                    },
                    None => {
                        proof {
                            let f = |t: Option<String>| view_opt_string(t);
                            assert(gv[i as int].tag_set is None);
                            assert(tags@.map_values(f) + spec_concat_group_tags(gv.skip(i + 1))
                                =~= spec_concat_group_tags(gv));
                        }
                    },
                }
                i = i + 1;
            }
            proof {
                assert(gv.skip(i as int) =~= Seq::<ChunkGroupView>::empty());
                assert(tags@.map_values(|t: Option<String>| view_opt_string(t))
                    =~= spec_concat_group_tags(gv));
            }
            let deduped = dedup_tags(tags);
            Some(deduped)
        },
        None => None,
    }
}

/// The one-element stub sparse vector used when full-text indexing is
/// disabled or the sparse service returned nothing.
pub fn stub_sparse_vector() -> (r: SparseVector)
    ensures
        r@ == seq![(0u32, 0i64)],
{
    let mut r: SparseVector = Vec::new();
    r.push((0u32, 0i64));
    proof {
        assert(r@ =~= seq![(0u32, 0i64)]);
    }
    r
}

/// The sparse vector one chunk ends up with: the service's, when
/// full-text is enabled and the service returned one; the stub
/// otherwise.
pub fn resolve_sparse_vector(
    fulltext_enabled: bool,
    service_sparse: &Vec<SparseVector>,
) -> (r: SparseVector)
    ensures
        fulltext_enabled && service_sparse@.len() > 0 ==> r@ == service_sparse@[0]@,
        !(fulltext_enabled && service_sparse@.len() > 0) ==> r@ == seq![(0u32, 0i64)],
{
    if fulltext_enabled && service_sparse.len() > 0 {
        crate::dup::clone_sparse_vector(&service_sparse[0])
    } else {
        stub_sparse_vector()
    }
}

/// The combined mathematical state of the two stores that ingestion
/// writes to.
#[verifier::ext_equal]
pub struct StoresV {
    pub chunks: Seq<ChunkMetadataView>,
    pub memberships: Seq<crate::store::Membership>,
    pub points: Seq<crate::models::PointDataView>,
}

/// The combined value of a relational store and an index.
pub open spec fn stores_v(
    rel: crate::store::RelationalStore,
    index: crate::store::VectorStore,
) -> StoresV {
    StoresV {
        chunks: rel.chunks_view(),
        memberships: rel.memberships@,
        points: index.points_view(),
    }
}

/// Outcome of one per-message upload, by error class.
pub enum UploadOutcomeV {
    Done(Option<u128>),
    ErrBadRequest,
    ErrDuplicateTracking,
    ErrNotFound,
    ErrInternal,
}

/// The outcome class of an upload result.
pub open spec fn spec_outcome_of(r: Result<Option<u128>, ServiceError>) -> UploadOutcomeV {
    match r {
        Ok(o) => UploadOutcomeV::Done(o),
        Err(e) => match e {
            ServiceError::BadRequest(_) => UploadOutcomeV::ErrBadRequest,
            ServiceError::DuplicateTrackingId(_) => UploadOutcomeV::ErrDuplicateTracking,
            ServiceError::NotFound(_) => UploadOutcomeV::ErrNotFound,
            _ => UploadOutcomeV::ErrInternal,
        },
    }
}

/// Whether collision detection fires: it runs only when the threshold
/// is below 1.0 and collisions are enabled, and it hits when the
/// index's top match scores at or above the threshold.
pub open spec fn spec_collision_hit(
    cfg: ServerDatasetConfiguration,
    top: Option<crate::models::SearchResult>,
) -> bool {
    cfg.duplicate_distance_threshold < SCORE_ONE && cfg.collisions_enabled && top is Some
        && top->0.score >= cfg.duplicate_distance_threshold
}

/// The point the non-collision path writes for a chunk row: the dense
/// embedding under the arity-named field, the sparse vector, and the
/// payload projected from the chunk with its groups' merged tags.
pub open spec fn spec_new_point(
    point_id: u128,
    meta: ChunkMetadataView,
    group_ids: Option<Seq<u128>>,
    groups: Seq<ChunkGroupView>,
    emb: Seq<i64>,
    splade: Seq<(u32, i64)>,
) -> crate::models::PointDataView {
    crate::models::PointDataView {
        point_id,
        dense: emb,
        sparse: splade,
        payload: crate::models::spec_payload_of(
            meta,
            group_ids,
            None,
            spec_chunk_tags(groups, group_ids),
        ),
    }
}

/// What one per-message upload does, for every input and every outcome
/// of the remote collaborators.
///
/// On a collision hit, the winner's point absorbs the new sparse
/// vector (its payload untouched) and the chunk becomes a collision
/// row under the winner's point id — no new point is created.  A
/// missing winner fails the message and an insert conflict on the
/// collision row leaves only the sparse-vector update behind, as the
/// write order does.  Otherwise an unrecognised embedding arity is
/// rejected before anything is written; a tracking conflict without
/// the upsert flag is rejected; and the row (inserted fresh or
/// replacing its tracking-key twin) is followed by the point write,
/// whose failure takes the row back out (the compensating delete).
pub open spec fn spec_upload_chunk(
    s: StoresV,
    groups: Seq<ChunkGroupView>,
    d: ChunkDataView,
    cfg: ServerDatasetConfiguration,
    emb: Seq<i64>,
    splade: Seq<(u32, i64)>,
    top: Option<crate::models::SearchResult>,
    write_ok: bool,
) -> (StoresV, UploadOutcomeV) {
    if spec_collision_hit(cfg, top) {
        let winner = top->0.point_id;
        if crate::store::spec_rows_with_points(s.chunks, seq![winner]).len() == 0 {
            (s, UploadOutcomeV::ErrInternal)
        } else {
            let pi = crate::store::spec_point_idx(s.points, winner);
            if pi == -1 {
                (s, UploadOutcomeV::ErrInternal)
            } else {
                let points2 = s.points.update(
                    pi,
                    crate::store::spec_point_update(
                        s.points[pi],
                        None,
                        None,
                        None,
                        d.chunk_metadata.dataset_id,
                        splade,
                    ),
                );
                if crate::store::spec_tracking_conflict(s.chunks, d.chunk_metadata) {
                    (StoresV { points: points2, ..s }, UploadOutcomeV::ErrInternal)
                } else {
                    (
                        StoresV {
                            chunks: s.chunks.push(
                                ChunkMetadataView {
                                    qdrant_point_id: Some(winner),
                                    ..d.chunk_metadata
                                },
                            ),
                            memberships: s.memberships + crate::store::spec_new_memberships(
                                d.chunk_metadata.id,
                                d.group_ids,
                            ),
                            points: points2,
                        },
                        UploadOutcomeV::Done(Some(d.chunk_metadata.id)),
                    )
                }
            }
        }
    } else if !crate::vectors::spec_supported_arity(emb.len() as int) {
        (s, UploadOutcomeV::ErrBadRequest)
    } else {
        let ci = crate::store::spec_conflict_idx(s.chunks, d.chunk_metadata);
        if ci != -1 && !d.upsert_by_tracking_id {
            (s, UploadOutcomeV::ErrDuplicateTracking)
        } else {
            let row = if ci == -1 {
                d.chunk_metadata
            } else {
                crate::store::spec_upsert_replacement(s.chunks[ci], d.chunk_metadata)
            };
            let chunks2 = if ci == -1 {
                s.chunks.push(row)
            } else {
                s.chunks.update(ci, row)
            };
            let mems2 = s.memberships + crate::store::spec_new_memberships(row.id, d.group_ids);
            if !write_ok {
                (
                    StoresV {
                        chunks: crate::store::spec_without_ids(chunks2, seq![row.id]),
                        memberships: crate::store::spec_memberships_without_chunks(
                            mems2,
                            seq![row.id],
                        ),
                        points: s.points,
                    },
                    UploadOutcomeV::ErrInternal,
                )
            } else {
                let points2 = if row.qdrant_point_id is Some {
                    crate::store::spec_points_without_ids(
                        s.points,
                        seq![row.qdrant_point_id->0],
                    ) + seq![
                        spec_new_point(
                            row.qdrant_point_id->0,
                            d.chunk_metadata,
                            d.group_ids,
                            groups,
                            emb,
                            splade,
                        ),
                    ]
                } else {
                    s.points
                };
                (
                    StoresV { chunks: chunks2, memberships: mems2, points: points2 },
                    UploadOutcomeV::Done(Some(row.id)),
                )
            }
        }
    }
}

/// Ingests one message on the per-message path, preserving collision
/// semantics.  The caller supplies the resolved dense embedding, the
/// resolved sparse vector, the index's top match for the embedding,
/// and whether the vector gateway accepted the write; for every value
/// of those, the stores end exactly as `spec_upload_chunk` says.
pub fn upload_chunk(
    data: ChunkData,
    config: ServerDatasetConfiguration,
    rel: &mut crate::store::RelationalStore,
    index: &mut crate::store::VectorStore,
    embedding: DenseVector,
    splade_vector: SparseVector,
    top_match: Option<crate::models::SearchResult>,
    vector_write_ok: bool,
) -> (r: Result<Option<u128>, ServiceError>)
    requires
        old(rel).wf(),
        old(index).wf(),
        !old(rel).spec_has_chunk_id(data.chunk_metadata.id),
    ensures
        final(rel).wf(),
        final(index).wf(),
        final(rel).groups == old(rel).groups,
        ({
            let (s2, o) = spec_upload_chunk(
                stores_v(*old(rel), *old(index)),
                old(rel).groups_view(),
                data@,
                config,
                embedding@,
                splade_vector@,
                top_match,
                vector_write_ok,
            );
            stores_v(*final(rel), *final(index)) == s2 && spec_outcome_of(r) == o
        }),
{
    let ghost s0 = stores_v(*rel, *index);
    let ghost groupsv = rel.groups_view();
    let ghost dv = data@;
    let ChunkData { chunk_metadata, content, group_ids, upsert_by_tracking_id, boost_phrase } =
        data;
    let collision: Option<u128> = if config.collisions_active() {
        match top_match {
            Some(tm) => {
                if tm.score >= config.duplicate_distance_threshold {
                    Some(tm.point_id)
                } else {
                    None
                }
            },
            None => None,
        }
    } else {
        None
    };
    proof {
        assert(collision is Some <==> spec_collision_hit(config, top_match));
        if collision is Some {
            assert(collision->0 == top_match->0.point_id);
        }
    }
    match collision {
        Some(winner) => {
            let mut winner_ids: Vec<u128> = Vec::new();
            winner_ids.push(winner);
            proof {
                assert(winner_ids@ =~= seq![winner]);
            }
            let winner_rows = rel.get_chunk_metadatas_from_point_ids(&winner_ids);
            if winner_rows.len() == 0 {
                proof {
                    assert(crate::store::spec_rows_with_points(s0.chunks, seq![winner]).len()
                        == 0) by {
                        assert(winner_rows@.map_values(|m: ChunkMetadata| m@).len() == 0);
                    }
                }
                return Err(ServiceError::InternalServerError(
                    "collision winner has no chunk row".to_owned(),
                ));
            }
            proof {
                assert(crate::store::spec_rows_with_points(s0.chunks, seq![winner]).len() != 0);
            }
            let update_result = index.update_qdrant_point_query(
                None,
                winner,
                None,
                None,
                chunk_metadata.dataset_id,
                splade_vector,
            );
            match update_result {
                Err(_) => {
                    proof {
                        crate::store::lemma_point_idx_props(s0.points, winner);
                        assert(crate::store::spec_point_idx(s0.points, winner) == -1);
                    }
                    Err(ServiceError::InternalServerError(
                        "failed to update collision winner point".to_owned(),
                    ))
                },
                Ok(()) => {
                    proof {
                        let i = choose|i: int|
                            {
                                &&& 0 <= i < s0.points.len()
                                &&& (#[trigger] s0.points[i]).point_id == winner
                                &&& index.points_view() == s0.points.update(
                                    i,
                                    crate::store::spec_point_update(
                                        s0.points[i],
                                        None,
                                        None,
                                        None,
                                        chunk_metadata.dataset_id,
                                        splade_vector@,
                                    ),
                                )
                            };
                        crate::store::lemma_point_idx_unique(s0.points, winner, i);
                    }
                    let dup_result = rel.insert_duplicate_chunk_metadata_query(
                        chunk_metadata,
                        winner,
                        &group_ids,
                    );
                    match dup_result {
                        Err(_) => Err(ServiceError::InternalServerError(
                            "failed to insert collision row".to_owned(),
                        )),
                        Ok(id) => {
                            proof {
                                assert(stores_v(*rel, *index) =~= spec_upload_chunk(
                                    s0,
                                    groupsv,
                                    dv,
                                    config,
                                    embedding@,
                                    splade_vector@,
                                    top_match,
                                    vector_write_ok,
                                ).0);
                            }
                            Ok(Some(id))
                        },
                    }
                },
            }
        },
        None => {
            let chunk_tags = chunk_group_tags(rel, &group_ids);
            let payload = crate::models::QdrantPayload::new(
                &chunk_metadata,
                copy_opt_vec(&group_ids),
                None,
                chunk_tags,
            );
            let vector_name = crate::vectors::vector_name_for_arity(embedding.len());
            if vector_name.is_none() {
                return Err(ServiceError::BadRequest("Invalid embedding vector size".to_owned()));
            }
            let insert_result = rel.insert_chunk_metadata_query(
                chunk_metadata,
                &group_ids,
                upsert_by_tracking_id,
            );
            match insert_result {
                Err(e) => {
                    proof {
                        crate::store::lemma_conflict_idx_props(s0.chunks, dv.chunk_metadata);
                    }
                    Err(e)
                },
                Ok((row_id, row_pid)) => {
                    proof {
                        let ci = crate::store::spec_conflict_idx(s0.chunks, dv.chunk_metadata);
                        crate::store::lemma_conflict_idx_props(s0.chunks, dv.chunk_metadata);
                        if crate::store::spec_tracking_conflict(s0.chunks, dv.chunk_metadata) {
                            let i = choose|i: int|
                                {
                                    &&& 0 <= i < s0.chunks.len()
                                    &&& same_tracking_key(
                                        #[trigger] s0.chunks[i],
                                        dv.chunk_metadata,
                                    )
                                    &&& rel.chunks_view() == s0.chunks.update(
                                        i,
                                        crate::store::spec_upsert_replacement(
                                            s0.chunks[i],
                                            dv.chunk_metadata,
                                        ),
                                    )
                                    &&& (row_id, row_pid) == (
                                        s0.chunks[i].id,
                                        s0.chunks[i].qdrant_point_id,
                                    )
                                    &&& rel.memberships@ == s0.memberships
                                        + crate::store::spec_new_memberships(
                                        s0.chunks[i].id,
                                        view_opt_vec(group_ids),
                                    )
                                };
                            crate::store::lemma_conflict_idx_unique(
                                s0.chunks,
                                dv.chunk_metadata,
                                i,
                            );
                        }
                    }
                    if vector_write_ok {
                        match row_pid {
                            Some(pid) => {
                                let point = crate::models::PointData {
                                    point_id: pid,
                                    dense: embedding,
                                    sparse: splade_vector,
                                    payload,
                                };
                                let ghost pv = point@;
                                let mut batch: Vec<crate::models::PointData> = Vec::new();
                                batch.push(point);
                                proof {
                                    assert(batch@.map_values(|p: crate::models::PointData| p@)
                                        =~= seq![pv]);
                                }
                                index.bulk_upsert_qdrant_points_query(batch);
                                proof {
                                    assert(crate::store::spec_point_ids(seq![pv])
                                        =~= seq![pid]);
                                    let expected = spec_upload_chunk(
                                        s0,
                                        groupsv,
                                        dv,
                                        config,
                                        embedding@,
                                        splade_vector@,
                                        top_match,
                                        vector_write_ok,
                                    ).0;
                                    assert(pv =~= spec_new_point(
                                        pid,
                                        dv.chunk_metadata,
                                        dv.group_ids,
                                        groupsv,
                                        embedding@,
                                        splade_vector@,
                                    ));
                                    assert(stores_v(*rel, *index) =~= expected);
                                }
                                Ok(Some(row_id))
                            },
                            None => {
                                proof {
                                    assert(stores_v(*rel, *index) =~= spec_upload_chunk(
                                        s0,
                                        groupsv,
                                        dv,
                                        config,
                                        embedding@,
                                        splade_vector@,
                                        top_match,
                                        vector_write_ok,
                                    ).0);
                                }
                                Ok(Some(row_id))
                            },
                        }
                    } else {
                        let mut revert_ids: Vec<u128> = Vec::new();
                        revert_ids.push(row_id);
                        proof {
                            assert(revert_ids@ =~= seq![row_id]);
                        }
                        rel.bulk_revert_insert_chunk_metadata_query(&revert_ids);
                        proof {
                            assert(stores_v(*rel, *index) =~= spec_upload_chunk(
                                s0,
                                groupsv,
                                dv,
                                config,
                                embedding@,
                                splade_vector@,
                                top_match,
                                vector_write_ok,
                            ).0);
                        }
                        Err(ServiceError::InternalServerError(
                            "failed to write point; insert reverted".to_owned(),
                        ))
                    }
                },
            }
        },
    }
}

/// Whether a bulk envelope must take the per-message path to preserve
/// collision and upsert semantics: some message supplies its own
/// vector, asks for split-average embedding or upserts by tracking id,
/// or the dataset has collisions enabled or a duplicate distance below
/// 1.0.
pub open spec fn spec_per_message_path_needed(
    b: crate::models::BulkUploadIngestionMessageView,
) -> bool {
    (exists|k: int|
        0 <= k < b.ingestion_messages.len() && {
            let m = #[trigger] b.ingestion_messages[k];
            m.chunk.split_avg == Some(true) || m.chunk.chunk_vector is Some
                || m.upsert_by_tracking_id
        }) || b.dataset_configuration.duplicate_distance_threshold < SCORE_ONE
        || b.dataset_configuration.collisions_enabled
}

/// Decides the bulk routing: fast batched path, or per-message path.
pub fn bulk_upload_requires_per_message_path(
    payload: &crate::models::BulkUploadIngestionMessage,
) -> (r: bool)
    ensures
        r == spec_per_message_path_needed(payload@),
{
    if payload.dataset_configuration.duplicate_distance_threshold < SCORE_ONE
        || payload.dataset_configuration.collisions_enabled {
        return true;
    }
    let msgs = &payload.ingestion_messages;
    let mut k: usize = 0;
    while k < msgs.len()
        invariant
            msgs@ == payload.ingestion_messages@,
            k <= msgs@.len(),
            forall|l: int|
                0 <= l < k ==> {
                    let m = #[trigger] msgs@[l]@;
                    !(m.chunk.split_avg == Some(true) || m.chunk.chunk_vector is Some
                        || m.upsert_by_tracking_id)
                },
        decreases msgs@.len() - k,
    {
        let split: bool = match msgs[k].chunk.split_avg {
            Some(true) => true,
            _ => false,
        };
        if split || msgs[k].chunk.chunk_vector.is_some() || msgs[k].upsert_by_tracking_id {
            proof {
                assert(payload@.ingestion_messages.len() == msgs@.len());
                assert(payload@.ingestion_messages[k as int] == msgs@[k as int]@);
            }
            return true;
        }
        k = k + 1;
    }
    proof {
        assert(payload@.ingestion_messages.len() == msgs@.len());
        assert forall|l: int| 0 <= l < payload@.ingestion_messages.len() implies {
            let m = #[trigger] payload@.ingestion_messages[l];
            !(m.chunk.split_avg == Some(true) || m.chunk.chunk_vector is Some
                || m.upsert_by_tracking_id)
        } by {
            assert(payload@.ingestion_messages[l] == msgs@[l]@);
        }
    }
    false
}

/// Prepares every message of a bulk envelope, in order, against the
/// live environment: each chunk keeps its producer-fixed point id or
/// draws a fresh one, and unparseable timestamps are dropped.  The
/// ghost result lists, message by message, the environment values the
/// preparation used.
pub fn prepare_all_chunk_data(payload: &crate::models::BulkUploadIngestionMessage) -> (r: (
    Vec<ChunkData>,
    Ghost<Seq<(u128, i64, Option<i64>)>>,
))
    ensures
        r.0@.len() == payload.ingestion_messages@.len(),
        r.1@.len() == payload.ingestion_messages@.len(),
        forall|k: int|
            0 <= k < r.0@.len() ==> (#[trigger] r.0@[k])@ == spec_prepared_chunk_data(
                payload@.ingestion_messages[k],
                payload.dataset_id,
                r.1@[k].0,
                r.1@[k].1,
                r.1@[k].2,
            ),
{
    let mut r: Vec<ChunkData> = Vec::new();
    let ghost mut env: Seq<(u128, i64, Option<i64>)> = Seq::empty();
    let mut k: usize = 0;
    while k < payload.ingestion_messages.len()
        invariant
            k <= payload.ingestion_messages@.len(),
            payload@.ingestion_messages == payload.ingestion_messages@.map_values(
                |m: UploadIngestionMessage| m@,
            ),
            r@.len() == k,
            env.len() == k,
            forall|l: int|
                0 <= l < k ==> (#[trigger] r@[l])@ == spec_prepared_chunk_data(
                    payload@.ingestion_messages[l],
                    payload.dataset_id,
                    env[l].0,
                    env[l].1,
                    env[l].2,
                ),
        decreases payload.ingestion_messages@.len() - k,
    {
        let (d, trip) = prepare_chunk_data_live(
            &payload.ingestion_messages[k],
            payload.dataset_id,
        );
        proof {
            assert(payload@.ingestion_messages.len() == payload.ingestion_messages@.len());
            assert(payload@.ingestion_messages[k as int]
                == payload.ingestion_messages@[k as int]@);
        }
        r.push(d);
        proof {
            env = env.push(trip@);
        }
        k = k + 1;
    }
    (r, Ghost(env))
}

/// The points the fast bulk path writes: one per message whose dense
/// embedding has a recognised arity and whose prepared row owns a
/// point id, in message order; the others are skipped before the call.
pub open spec fn spec_bulk_points(
    batch: Seq<ChunkDataView>,
    groups: Seq<ChunkGroupView>,
    embs: Seq<Seq<i64>>,
    splades: Seq<Seq<(u32, i64)>>,
) -> Seq<crate::models::PointDataView>
    decreases batch.len(),
{
    if batch.len() == 0 {
        Seq::empty()
    } else {
        let rest = spec_bulk_points(batch.skip(1), groups, embs.skip(1), splades.skip(1));
        let d = batch[0];
        if crate::vectors::spec_supported_arity(embs[0].len() as int)
            && d.chunk_metadata.qdrant_point_id is Some {
            seq![
                spec_new_point(
                    d.chunk_metadata.qdrant_point_id->0,
                    d.chunk_metadata,
                    d.group_ids,
                    groups,
                    embs[0],
                    splades[0],
                ),
            ] + rest
        } else {
            rest
        }
    }
}

proof fn lemma_bulk_points_ids(
    batch: Seq<ChunkDataView>,
    groups: Seq<ChunkGroupView>,
    embs: Seq<Seq<i64>>,
    splades: Seq<Seq<(u32, i64)>>,
)
    requires
        embs.len() == batch.len(),
        splades.len() == batch.len(),
    ensures
        forall|p: crate::models::PointDataView|
            #[trigger] spec_bulk_points(batch, groups, embs, splades).contains(p) ==> exists|k: int|
                0 <= k < batch.len() && (#[trigger] batch[k]).chunk_metadata.qdrant_point_id
                    == Some(p.point_id),
        (forall|k: int, l: int|
            0 <= k < l < batch.len() && (#[trigger] batch[k]).chunk_metadata.qdrant_point_id
                is Some && (#[trigger] batch[l]).chunk_metadata.qdrant_point_id is Some
                ==> batch[k].chunk_metadata.qdrant_point_id->0
                != batch[l].chunk_metadata.qdrant_point_id->0) ==> (forall|i: int, j: int|
            0 <= i < j < spec_bulk_points(batch, groups, embs, splades).len()
                ==> (#[trigger] spec_bulk_points(batch, groups, embs, splades)[i]).point_id != (
            #[trigger] spec_bulk_points(batch, groups, embs, splades)[j]).point_id),
    decreases batch.len(),
{
    if batch.len() > 0 {
        let tailb = batch.skip(1);
        let res = spec_bulk_points(batch, groups, embs, splades);
        let rest = spec_bulk_points(tailb, groups, embs.skip(1), splades.skip(1));
        lemma_bulk_points_ids(tailb, groups, embs.skip(1), splades.skip(1));
        let kept0 = crate::vectors::spec_supported_arity(embs[0].len() as int)
            && batch[0].chunk_metadata.qdrant_point_id is Some;
        assert forall|p: crate::models::PointDataView| #[trigger] res.contains(p) implies exists|
            k: int,
        |
            0 <= k < batch.len() && (#[trigger] batch[k]).chunk_metadata.qdrant_point_id == Some(
                p.point_id,
            ) by {
            let t = choose|t: int| 0 <= t < res.len() && res[t] == p;
            if kept0 && t == 0 {
                assert(batch[0].chunk_metadata.qdrant_point_id == Some(p.point_id));
            } else {
                if kept0 {
                    assert(res[t] == rest[t - 1]);
                } else {
                    assert(res[t] == rest[t]);
                }
                assert(rest.contains(p));
                let k = choose|k: int|
                    0 <= k < tailb.len() && (#[trigger] tailb[k]).chunk_metadata.qdrant_point_id
                        == Some(p.point_id);
                assert(batch[k + 1] == tailb[k]);
            }
        }
        if forall|k: int, l: int|
            0 <= k < l < batch.len() && (#[trigger] batch[k]).chunk_metadata.qdrant_point_id
                is Some && (#[trigger] batch[l]).chunk_metadata.qdrant_point_id is Some
                ==> batch[k].chunk_metadata.qdrant_point_id->0
                != batch[l].chunk_metadata.qdrant_point_id->0 {
            assert forall|k: int, l: int|
                0 <= k < l < tailb.len() && (#[trigger] tailb[k]).chunk_metadata.qdrant_point_id
                    is Some && (#[trigger] tailb[l]).chunk_metadata.qdrant_point_id
                    is Some implies tailb[k].chunk_metadata.qdrant_point_id->0
                != tailb[l].chunk_metadata.qdrant_point_id->0 by {
                assert(batch[k + 1] == tailb[k] && batch[l + 1] == tailb[l]);
            }
            assert forall|i: int, j: int|
                0 <= i < j < res.len() implies (#[trigger] res[i]).point_id
                != (#[trigger] res[j]).point_id by {
                if kept0 && i == 0 {
                    assert(res[j] == rest[j - 1]);
                    assert(rest.contains(rest[j - 1]));
                    let k = choose|k: int|
                        0 <= k < tailb.len() && (
                        #[trigger] tailb[k]).chunk_metadata.qdrant_point_id == Some(
                            res[j].point_id,
                        );
                    assert(batch[k + 1] == tailb[k]);
                    assert(batch[0].chunk_metadata.qdrant_point_id->0
                        != batch[k + 1].chunk_metadata.qdrant_point_id->0);
                } else {
                    if kept0 {
                        assert(res[i] == rest[i - 1] && res[j] == rest[j - 1]);
                    } else {
                        assert(res[i] == rest[i] && res[j] == rest[j]);
                    }
                }
            }
        }
    }
}

fn build_bulk_points(
    data: &Vec<ChunkData>,
    rel: &crate::store::RelationalStore,
    embeddings: &Vec<DenseVector>,
    splade_vectors: &Vec<SparseVector>,
) -> (r: Vec<crate::models::PointData>)
    requires
        embeddings@.len() == data@.len(),
        splade_vectors@.len() == data@.len(),
    ensures
        r@.map_values(|p: crate::models::PointData| p@) == spec_bulk_points(
            data@.map_values(|d: ChunkData| d@),
            rel.groups_view(),
            embeddings@.map_values(|e: Vec<i64>| e@),
            splade_vectors@.map_values(|s: Vec<(u32, i64)>| s@),
        ),
{
    let ghost bv = data@.map_values(|d: ChunkData| d@);
    let ghost ev = embeddings@.map_values(|e: Vec<i64>| e@);
    let ghost sv = splade_vectors@.map_values(|s: Vec<(u32, i64)>| s@);
    let ghost groupsv = rel.groups_view();
    let mut out: Vec<crate::models::PointData> = Vec::new();
    let mut k: usize = 0;
    proof {
        assert(bv.skip(0) =~= bv);
        assert(ev.skip(0) =~= ev);
        assert(sv.skip(0) =~= sv);
        assert(out@.map_values(|p: crate::models::PointData| p@) =~= Seq::<
            crate::models::PointDataView,
        >::empty());
    }
    while k < data.len()
        invariant
            k <= data@.len(),
            embeddings@.len() == data@.len(),
            splade_vectors@.len() == data@.len(),
            bv == data@.map_values(|d: ChunkData| d@),
            ev == embeddings@.map_values(|e: Vec<i64>| e@),
            sv == splade_vectors@.map_values(|s: Vec<(u32, i64)>| s@),
            groupsv == rel.groups_view(),
            out@.map_values(|p: crate::models::PointData| p@) + spec_bulk_points(
                bv.skip(k as int),
                groupsv,
                ev.skip(k as int),
                sv.skip(k as int),
            ) =~= spec_bulk_points(bv, groupsv, ev, sv),
        decreases data@.len() - k,
    {
        proof {
            assert(bv.skip(k as int)[0] == bv[k as int]);
            assert(ev.skip(k as int)[0] == ev[k as int]);
            assert(sv.skip(k as int)[0] == sv[k as int]);
            assert(bv.skip(k as int).skip(1) =~= bv.skip(k + 1));
            assert(ev.skip(k as int).skip(1) =~= ev.skip(k + 1));
            assert(sv.skip(k as int).skip(1) =~= sv.skip(k + 1));
            assert(bv[k as int] == data@[k as int]@);
            assert(ev[k as int] == embeddings@[k as int]@);
            assert(sv[k as int] == splade_vectors@[k as int]@);
        }
        let supported: bool = crate::vectors::vector_name_for_arity(embeddings[k].len()).is_some();
        let pid_opt: Option<u128> = data[k].chunk_metadata.qdrant_point_id;
        match pid_opt {
            Some(pid) if supported => {
                let tags = chunk_group_tags(rel, &data[k].group_ids);
                let payload = crate::models::QdrantPayload::new(
                    &data[k].chunk_metadata,
                    copy_opt_vec(&data[k].group_ids),
                    None,
                    tags,
                );
                let point = crate::models::PointData {
                    point_id: pid,
                    dense: copy_vec(&embeddings[k]),
                    sparse: copy_vec(&splade_vectors[k]),
                    payload,
                };
                proof {
                    assert(point@ =~= spec_new_point(
                        pid,
                        bv[k as int].chunk_metadata,
                        bv[k as int].group_ids,
                        groupsv,
                        ev[k as int],
                        sv[k as int],
                    ));
                }
                out.push(point);
                proof {
                    assert(out@.map_values(|p: crate::models::PointData| p@)
                        =~= out@.drop_last().map_values(|p: crate::models::PointData| p@).push(
                        spec_new_point(
                            pid,
                            bv[k as int].chunk_metadata,
                            bv[k as int].group_ids,
                            groupsv,
                            ev[k as int],
                            sv[k as int],
                        ),
                    ));
                }
            },
            _ => {},
        }
        proof {
            assert(out@.map_values(|p: crate::models::PointData| p@) + spec_bulk_points(
                bv.skip(k + 1),
                groupsv,
                ev.skip(k + 1),
                sv.skip(k + 1),
            ) =~= spec_bulk_points(bv, groupsv, ev, sv));
        }
        k = k + 1;
    }
    proof {
        assert(bv.skip(k as int) =~= Seq::<ChunkDataView>::empty());
        assert(out@.map_values(|p: crate::models::PointData| p@) =~= spec_bulk_points(
            bv,
            groupsv,
            ev,
            sv,
        ));
    }
    out
}

/// Ingests a bulk envelope on the fast batched path: the embeddings of
/// all contents arrive in one batch, in message order.  Either the
/// chunk rows are bulk-inserted (silently dropping tracking-key
/// duplicates) and the points then written — with the insert reverted
/// if the vector gateway fails — or, with the queued-write order, the
/// points are written first and one relational write per message is
/// appended to `pg_queue`.  Returns the inserted chunk ids in message
/// order, or nothing when every row was a duplicate or the writes were
/// queued.
pub fn bulk_upload_chunks(
    data: &Vec<ChunkData>,
    dataset_id: u128,
    config: ServerDatasetConfiguration,
    rel: &mut crate::store::RelationalStore,
    index: &mut crate::store::VectorStore,
    embeddings: &Vec<DenseVector>,
    splade_vectors: &Vec<SparseVector>,
    vector_write_ok: bool,
    use_pg_queue: bool,
    pg_queue: &mut Vec<crate::models::PGInsertQueueMessage>,
) -> (r: Result<Option<Vec<u128>>, ServiceError>)
    requires
        old(rel).wf(),
        old(index).wf(),
        embeddings@.len() == data@.len(),
        splade_vectors@.len() == data@.len(),
        forall|k: int|
            0 <= k < data@.len() ==> !old(rel).spec_has_chunk_id(
                (#[trigger] data@[k]).chunk_metadata.id,
            ),
        forall|k: int, l: int|
            0 <= k < l < data@.len() ==> data@[k].chunk_metadata.id != data@[l].chunk_metadata.id,
        forall|k: int, l: int|
            0 <= k < l < data@.len() && (#[trigger] data@[k]).chunk_metadata.qdrant_point_id
                is Some && (#[trigger] data@[l]).chunk_metadata.qdrant_point_id is Some
                ==> data@[k].chunk_metadata.qdrant_point_id->0
                != data@[l].chunk_metadata.qdrant_point_id->0,
    ensures
        final(rel).wf(),
        final(index).wf(),
        final(rel).groups == old(rel).groups,
        ({
            let bv = data@.map_values(|d: ChunkData| d@);
            let ev = embeddings@.map_values(|e: Vec<i64>| e@);
            let sv = splade_vectors@.map_values(|s: Vec<(u32, i64)>| s@);
            let groupsv = old(rel).groups_view();
            let pts = spec_bulk_points(bv, groupsv, ev, sv);
            let ins = crate::store::spec_bulk_insert(old(rel).chunks_view(), bv);
            if use_pg_queue {
                if !vector_write_ok {
                    &&& r is Err
                    &&& r->Err_0 is InternalServerError
                    &&& *final(rel) == *old(rel)
                    &&& final(index).points == old(index).points
                    &&& final(pg_queue)@ == old(pg_queue)@
                } else {
                    &&& r is Ok
                    &&& r->Ok_0 is None
                    &&& *final(rel) == *old(rel)
                    &&& final(index).points_view() == crate::store::spec_points_without_ids(
                        old(index).points_view(),
                        crate::store::spec_point_ids(pts),
                    ) + pts
                    &&& final(pg_queue)@.len() == old(pg_queue)@.len() + bv.len()
                    &&& (forall|k: int|
                        0 <= k < old(pg_queue)@.len() ==> (#[trigger] final(pg_queue)@[k])@
                            == old(pg_queue)@[k]@)
                    &&& (forall|k: int|
                        0 <= k < bv.len() ==> (#[trigger] final(pg_queue)@[old(pg_queue)@.len()
                            + k])@ == (crate::models::PGInsertQueueMessageView {
                            chunk_metadatas: bv[k],
                            dataset_id: dataset_id,
                            dataset_config: config,
                            attempt_number: 0,
                        }))
                }
            } else {
                &&& final(pg_queue)@ == old(pg_queue)@
                &&& if ins.1.len() == 0 {
                    &&& r is Ok
                    &&& r->Ok_0 is None
                    &&& final(rel).chunks_view() == ins.0
                    &&& final(rel).memberships@ == old(rel).memberships@
                    &&& final(index).points == old(index).points
                } else if vector_write_ok {
                    &&& r is Ok
                    &&& r->Ok_0 is Some
                    &&& r->Ok_0->0@ == crate::store::spec_kept_ids(ins.1)
                    &&& final(rel).chunks_view() == ins.0
                    &&& final(rel).memberships@ == old(rel).memberships@
                        + crate::store::spec_batch_memberships(ins.1)
                    &&& final(index).points_view() == crate::store::spec_points_without_ids(
                        old(index).points_view(),
                        crate::store::spec_point_ids(pts),
                    ) + pts
                } else {
                    &&& r is Err
                    &&& r->Err_0 is InternalServerError
                    &&& final(rel).chunks_view() == crate::store::spec_without_ids(
                        ins.0,
                        crate::store::spec_kept_ids(ins.1),
                    )
                    &&& final(rel).memberships@
                        == crate::store::spec_memberships_without_chunks(
                        old(rel).memberships@ + crate::store::spec_batch_memberships(ins.1),
                        crate::store::spec_kept_ids(ins.1),
                    )
                    &&& final(index).points == old(index).points
                }
            }
        }),
{
    let ghost bv = data@.map_values(|d: ChunkData| d@);
    let ghost ev = embeddings@.map_values(|e: Vec<i64>| e@);
    let ghost sv = splade_vectors@.map_values(|s: Vec<(u32, i64)>| s@);
    let ghost groupsv = rel.groups_view();
    let points = build_bulk_points(data, rel, embeddings, splade_vectors);
    proof {
        lemma_bulk_points_ids(bv, groupsv, ev, sv);
        assert forall|k: int, l: int|
            0 <= k < l < points@.len() implies (#[trigger] points@[k]).point_id
            != (#[trigger] points@[l]).point_id by {
            let pv = points@.map_values(|p: crate::models::PointData| p@);
            assert(pv[k] == points@[k]@ && pv[l] == points@[l]@);
        }
    }
    if use_pg_queue {
        if !vector_write_ok {
            return Err(ServiceError::InternalServerError(
                "failed to write points; queued writes skipped".to_owned(),
            ));
        }
        index.bulk_upsert_qdrant_points_query(points);
        let ghost pg0 = pg_queue@;
        let mut k: usize = 0;
        while k < data.len()
            invariant
                k <= data@.len(),
                bv == data@.map_values(|d: ChunkData| d@),
                pg_queue@.len() == pg0.len() + k,
                forall|t: int|
                    0 <= t < pg0.len() ==> (#[trigger] pg_queue@[t])@ == pg0[t]@,
                forall|t: int|
                    0 <= t < k ==> (#[trigger] pg_queue@[pg0.len() + t])@
                        == (crate::models::PGInsertQueueMessageView {
                        chunk_metadatas: bv[t],
                        dataset_id: dataset_id,
                        dataset_config: config,
                        attempt_number: 0,
                    }),
            decreases data@.len() - k,
        {
            let msg = crate::models::PGInsertQueueMessage {
                chunk_metadatas: crate::dup::clone_chunk_data(&data[k]),
                dataset_id,
                dataset_config: config,
                attempt_number: 0,
            };
            proof {
                assert(msg@ =~= crate::models::PGInsertQueueMessageView {
                    chunk_metadatas: bv[k as int],
                    dataset_id: dataset_id,
                    dataset_config: config,
                    attempt_number: 0,
                });
            }
            pg_queue.push(msg);
            k = k + 1;
        }
        Ok(None)
    } else {
        let inserted: Vec<u128> = rel.bulk_insert_chunk_metadata_query(data);
        if inserted.len() == 0 {
            proof {
                let ins = crate::store::spec_bulk_insert(old(rel).chunks_view(), bv);
                assert(ins.1.len() == 0) by {
                    assert(crate::store::spec_kept_ids(ins.1).len() == ins.1.len());
                }
                assert(rel.memberships@ =~= old(rel).memberships@) by {
                    assert(crate::store::spec_batch_memberships(ins.1) =~= Seq::<
                        crate::store::Membership,
                    >::empty());
                }
            }
            return Ok(None);
        }
        if vector_write_ok {
            index.bulk_upsert_qdrant_points_query(points);
            Ok(Some(inserted))
        } else {
            rel.bulk_revert_insert_chunk_metadata_query(&inserted);
            Err(ServiceError::InternalServerError(
                "failed to write points; bulk insert reverted".to_owned(),
            ))
        }
    }
}

/// The remote collaborators' outcomes for one message on the
/// per-message path: the resolved dense embedding, the resolved sparse
/// vector, the index's top match, and the vector gateway's verdict.
pub struct MessageEnv {
    pub embedding: DenseVector,
    pub splade_vector: SparseVector,
    pub top_match: Option<crate::models::SearchResult>,
    pub vector_write_ok: bool,
}

/// The mathematical value of one message's environment.
#[verifier::ext_equal]
pub struct MessageEnvV {
    pub embedding: Seq<i64>,
    pub splade_vector: Seq<(u32, i64)>,
    pub top_match: Option<crate::models::SearchResult>,
    pub vector_write_ok: bool,
}

impl View for MessageEnv {
    type V = MessageEnvV;

    open spec fn view(&self) -> MessageEnvV {
        MessageEnvV {
            embedding: self.embedding@,
            splade_vector: self.splade_vector@,
            top_match: self.top_match,
            vector_write_ok: self.vector_write_ok,
        }
    }
}

/// What the per-message bulk path does: each message runs through the
/// per-message upload in order, each against its own environment, and
/// the ids of the successfully uploaded chunks are collected in order.
/// A failed message is skipped, exactly as the batched loop ignores
/// per-message failures.
pub open spec fn spec_upload_fold(
    s: StoresV,
    groups: Seq<ChunkGroupView>,
    batch: Seq<ChunkDataView>,
    cfg: ServerDatasetConfiguration,
    envs: Seq<MessageEnvV>,
) -> (StoresV, Seq<u128>)
    decreases batch.len(),
{
    if batch.len() == 0 {
        (s, Seq::empty())
    } else {
        let step = spec_upload_chunk(
            s,
            groups,
            batch[0],
            cfg,
            envs[0].embedding,
            envs[0].splade_vector,
            envs[0].top_match,
            envs[0].vector_write_ok,
        );
        let rec = spec_upload_fold(step.0, groups, batch.skip(1), cfg, envs.skip(1));
        (
            rec.0,
            match step.1 {
                UploadOutcomeV::Done(Some(id)) => seq![id] + rec.1,
                _ => rec.1,
            },
        )
    }
}

/// Whether some row of `cs` carries this chunk id.
pub open spec fn spec_chunks_have_id(cs: Seq<ChunkMetadataView>, id: u128) -> bool {
    exists|i: int| 0 <= i < cs.len() && (#[trigger] cs[i]).id == id
}

proof fn lemma_upload_chunk_other_ids(
    s: StoresV,
    groups: Seq<ChunkGroupView>,
    d: ChunkDataView,
    cfg: ServerDatasetConfiguration,
    emb: Seq<i64>,
    splade: Seq<(u32, i64)>,
    top: Option<crate::models::SearchResult>,
    ok: bool,
    id2: u128,
)
    requires
        !spec_chunks_have_id(s.chunks, id2),
        d.chunk_metadata.id != id2,
    ensures
        !spec_chunks_have_id(
            spec_upload_chunk(s, groups, d, cfg, emb, splade, top, ok).0.chunks,
            id2,
        ),
{
    let res = spec_upload_chunk(s, groups, d, cfg, emb, splade, top, ok).0.chunks;
    let ci = crate::store::spec_conflict_idx(s.chunks, d.chunk_metadata);
    crate::store::lemma_conflict_idx_props(s.chunks, d.chunk_metadata);
    if spec_chunks_have_id(res, id2) {
        let w = choose|i: int| 0 <= i < res.len() && (#[trigger] res[i]).id == id2;
        if spec_collision_hit(cfg, top) {
            assert(res[w].id != id2);
        } else if !crate::vectors::spec_supported_arity(emb.len() as int) {
            assert(res[w].id != id2);
        } else if ci != -1 && !d.upsert_by_tracking_id {
            assert(res[w].id != id2);
        } else {
            let row = if ci == -1 {
                d.chunk_metadata
            } else {
                crate::store::spec_upsert_replacement(s.chunks[ci], d.chunk_metadata)
            };
            let chunks2 = if ci == -1 {
                s.chunks.push(row)
            } else {
                s.chunks.update(ci, row)
            };
            assert(!spec_chunks_have_id(chunks2, id2)) by {
                if spec_chunks_have_id(chunks2, id2) {
                    let t = choose|i: int|
                        0 <= i < chunks2.len() && (#[trigger] chunks2[i]).id == id2;
                    if ci == -1 && t == chunks2.len() - 1 {
                        assert(chunks2[t] == row);
                    } else if ci != -1 && t == ci {
                        assert(chunks2[t] == row);
                        assert(row.id == s.chunks[ci].id);
                        assert((#[trigger] s.chunks[ci]).id != id2);
                    } else {
                        assert(chunks2[t] == s.chunks[t]);
                        assert((#[trigger] s.chunks[t]).id != id2);
                    }
                }
            }
            if !ok {
                crate::store::lemma_without_ids_props(chunks2, seq![row.id]);
                assert(res.contains(res[w]));
                assert(chunks2.contains(res[w]));
                let t = choose|i: int|
                    0 <= i < chunks2.len() && chunks2[i] == res[w];
                assert((#[trigger] chunks2[t]).id != id2);
            } else {
                assert(res[w] == chunks2[w]);
            }
        }
        assert(false);
    }
}

/// Ingests a bulk envelope on the per-message path, one message at a
/// time in order, preserving collision and upsert semantics; a failed
/// message is skipped.  Returns the uploaded chunk ids in order, or
/// nothing when no message was uploaded.
pub fn bulk_upload_chunks_per_message(
    data: &Vec<ChunkData>,
    config: ServerDatasetConfiguration,
    rel: &mut crate::store::RelationalStore,
    index: &mut crate::store::VectorStore,
    envs: &Vec<MessageEnv>,
) -> (r: Option<Vec<u128>>)
    requires
        old(rel).wf(),
        old(index).wf(),
        envs@.len() == data@.len(),
        forall|k: int|
            0 <= k < data@.len() ==> !old(rel).spec_has_chunk_id(
                (#[trigger] data@[k]).chunk_metadata.id,
            ),
        forall|k: int, l: int|
            0 <= k < l < data@.len() ==> data@[k].chunk_metadata.id != data@[l].chunk_metadata.id,
    ensures
        final(rel).wf(),
        final(index).wf(),
        final(rel).groups == old(rel).groups,
        ({
            let fold = spec_upload_fold(
                stores_v(*old(rel), *old(index)),
                old(rel).groups_view(),
                data@.map_values(|d: ChunkData| d@),
                config,
                envs@.map_values(|e: MessageEnv| e@),
            );
            &&& stores_v(*final(rel), *final(index)) == fold.0
            &&& (fold.1.len() > 0 ==> r is Some && r->0@ == fold.1)
            &&& (fold.1.len() == 0 ==> r is None)
        }),
{
    let ghost s0 = stores_v(*rel, *index);
    let ghost groupsv = rel.groups_view();
    let ghost bv = data@.map_values(|d: ChunkData| d@);
    let ghost evs = envs@.map_values(|e: MessageEnv| e@);
    let ghost fold = spec_upload_fold(s0, groupsv, bv, config, evs);
    let mut ids: Vec<u128> = Vec::new();
    let mut k: usize = 0;
    proof {
        assert(bv.skip(0) =~= bv);
        assert(evs.skip(0) =~= evs);
        assert(Seq::<u128>::empty() + fold.1 =~= fold.1);
    }
    while k < data.len()
        invariant
            k <= data@.len(),
            envs@.len() == data@.len(),
            bv == data@.map_values(|d: ChunkData| d@),
            evs == envs@.map_values(|e: MessageEnv| e@),
            fold == spec_upload_fold(s0, groupsv, bv, config, evs),
            rel.wf(),
            index.wf(),
            rel.groups == old(rel).groups,
            rel.groups_view() == groupsv,
            fold.0 == spec_upload_fold(
                stores_v(*rel, *index),
                groupsv,
                bv.skip(k as int),
                config,
                evs.skip(k as int),
            ).0,
            fold.1 =~= ids@ + spec_upload_fold(
                stores_v(*rel, *index),
                groupsv,
                bv.skip(k as int),
                config,
                evs.skip(k as int),
            ).1,
            forall|l: int|
                k <= l < data@.len() ==> !rel.spec_has_chunk_id(
                    (#[trigger] data@[l]).chunk_metadata.id,
                ),
            forall|a: int, b: int|
                0 <= a < b < data@.len() ==> data@[a].chunk_metadata.id
                    != data@[b].chunk_metadata.id,
        decreases data@.len() - k,
    {
        let ghost pre = stores_v(*rel, *index);
        proof {
            assert(bv.skip(k as int)[0] == bv[k as int]);
            assert(evs.skip(k as int)[0] == evs[k as int]);
            assert(bv.skip(k as int).skip(1) =~= bv.skip(k + 1));
            assert(evs.skip(k as int).skip(1) =~= evs.skip(k + 1));
            assert(bv[k as int] == data@[k as int]@);
            assert(evs[k as int] == envs@[k as int]@);
        }
        let d = crate::dup::clone_chunk_data(&data[k]);
        let emb = copy_vec(&envs[k].embedding);
        let spl = copy_vec(&envs[k].splade_vector);
        let res = upload_chunk(
            d,
            config,
            rel,
            index,
            emb,
            spl,
            envs[k].top_match,
            envs[k].vector_write_ok,
        );
        proof {
            let step = spec_upload_chunk(
                pre,
                groupsv,
                bv[k as int],
                config,
                evs[k as int].embedding,
                evs[k as int].splade_vector,
                evs[k as int].top_match,
                evs[k as int].vector_write_ok,
            );
            assert(stores_v(*rel, *index) == step.0);
            assert(spec_outcome_of(res) == step.1);
            assert forall|l: int|
                k + 1 <= l < data@.len() implies !rel.spec_has_chunk_id(
                (#[trigger] data@[l]).chunk_metadata.id,
            ) by {
                let id2 = data@[l].chunk_metadata.id;
                assert(data@[k as int].chunk_metadata.id != id2);
                assert(!spec_chunks_have_id(pre.chunks, id2)) by {
                    if spec_chunks_have_id(pre.chunks, id2) {
                        let w = choose|i: int|
                            0 <= i < pre.chunks.len() && (#[trigger] pre.chunks[i]).id == id2;
                        assert(rel.spec_has_chunk_id(id2) || true);
                    }
                }
                lemma_upload_chunk_other_ids(
                    pre,
                    groupsv,
                    bv[k as int],
                    config,
                    evs[k as int].embedding,
                    evs[k as int].splade_vector,
                    evs[k as int].top_match,
                    evs[k as int].vector_write_ok,
                    id2,
                );
                if rel.spec_has_chunk_id(id2) {
                    assert(spec_chunks_have_id(rel.chunks_view(), id2)) by {
                        let w = choose|i: int|
                            0 <= i < rel.chunks_view().len() && (
                            #[trigger] rel.chunks_view()[i]).id == id2;
                        assert((#[trigger] rel.chunks_view()[w]).id == id2);
                    }
                    assert(false);
                }
            }
        }
        match res {
            Ok(Some(id)) => {
                ids.push(id);
            },
            _ => {},
        }
        k = k + 1;
    }
    proof {
        assert(bv.skip(k as int) =~= Seq::<ChunkDataView>::empty());
        assert(evs.skip(k as int) =~= Seq::<MessageEnvV>::empty());
        assert(fold.1 =~= ids@);
    }
    if ids.len() == 0 {
        None
    } else {
        Some(ids)
    }
}

/// The normalised content an update re-embeds: the row's HTML with
/// tags stripped, unless the envelope opts out of conversion.
pub open spec fn spec_update_content(m: crate::models::UpdateIngestionMessageView) -> Seq<char> {
    let html = if m.chunk_metadata.chunk_html is Some {
        m.chunk_metadata.chunk_html->0
    } else {
        Seq::empty()
    };
    if m.convert_html_to_text == Some(false) {
        html
    } else {
        spec_strip_html(html)
    }
}

/// The content whose embedding an update writes back.
pub fn update_chunk_content(payload: &crate::models::UpdateIngestionMessage) -> (r: String)
    ensures
        r@ == spec_update_content(payload@),
{
    let r: String = match payload.convert_html_to_text {
        Some(false) => match &payload.chunk_metadata.chunk_html {
            Some(h) => h.clone(),
            None => String::new(),
        },
        _ => match &payload.chunk_metadata.chunk_html {
            Some(h) => convert_html_to_text(h.as_str()),
            None => convert_html_to_text(""),
        },
    };
    proof {
        reveal_strlit("");
        assert(""@ =~= Seq::<char>::empty());
    }
    r
}

/// Whether a group with this id belongs to the dataset.
pub open spec fn spec_group_owned(
    groups: Seq<ChunkGroupView>,
    gid: u128,
    dataset_id: u128,
) -> bool {
    exists|i: int|
        0 <= i < groups.len() && (#[trigger] groups[i]).id == gid && groups[i].dataset_id
            == dataset_id
}

/// Whether every listed group belongs to the dataset.
pub open spec fn spec_groups_all_owned(
    groups: Seq<ChunkGroupView>,
    ids: Seq<u128>,
    dataset_id: u128,
) -> bool {
    forall|k: int| 0 <= k < ids.len() ==> spec_group_owned(groups, #[trigger] ids[k], dataset_id)
}

/// What one update job does, for every input and every outcome of the
/// remote collaborators.
///
/// A chunk without a row, or a row without a point id, is rejected as
/// a bad request; so is a named group outside the dataset.  A row in
/// another dataset is not found.  Otherwise the row's mutable fields
/// are overwritten (its memberships replaced when groups are named),
/// and the chunk's point absorbs the new embedding, sparse vector and
/// — unless the envelope marks the chunk as a collision by carrying no
/// point id — a payload re-projected from the new metadata.
pub open spec fn spec_update_chunk(
    s: StoresV,
    groups: Seq<ChunkGroupView>,
    m: crate::models::UpdateIngestionMessageView,
    emb: Seq<i64>,
    splade: Seq<(u32, i64)>,
    now: i64,
) -> (StoresV, UploadOutcomeV) {
    let ri = crate::store::spec_row_idx(s.chunks, m.chunk_metadata.id);
    if ri == -1 || s.chunks[ri].qdrant_point_id is None {
        (s, UploadOutcomeV::ErrBadRequest)
    } else {
        let point_id = s.chunks[ri].qdrant_point_id->0;
        if m.group_ids is Some && !spec_groups_all_owned(groups, m.group_ids->0, m.dataset_id) {
            (s, UploadOutcomeV::ErrBadRequest)
        } else if s.chunks[ri].dataset_id != m.dataset_id {
            (s, UploadOutcomeV::ErrNotFound)
        } else {
            let row2 = crate::store::spec_updated_row(s.chunks[ri], m.chunk_metadata, now);
            let chunks2 = s.chunks.update(ri, row2);
            let mems2 = if m.group_ids is Some {
                crate::store::spec_memberships_without_chunks(
                    s.memberships,
                    seq![m.chunk_metadata.id],
                ) + crate::store::spec_new_memberships(m.chunk_metadata.id, m.group_ids)
            } else {
                s.memberships
            };
            let pi = crate::store::spec_point_idx(s.points, point_id);
            if pi == -1 {
                (
                    StoresV { chunks: chunks2, memberships: mems2, points: s.points },
                    UploadOutcomeV::ErrBadRequest,
                )
            } else {
                let meta_opt = if m.chunk_metadata.qdrant_point_id is None {
                    None
                } else {
                    Some(m.chunk_metadata)
                };
                let points2 = s.points.update(
                    pi,
                    crate::store::spec_point_update(
                        s.points[pi],
                        meta_opt,
                        Some(emb),
                        m.group_ids,
                        m.dataset_id,
                        splade,
                    ),
                );
                (
                    StoresV { chunks: chunks2, memberships: mems2, points: points2 },
                    UploadOutcomeV::Done(None),
                )
            }
        }
    }
}

/// The outcome class of an update result.
pub open spec fn spec_unit_outcome_of(r: Result<(), ServiceError>) -> UploadOutcomeV {
    match r {
        Ok(u) => UploadOutcomeV::Done(None),
        Err(e) => match e {
            ServiceError::BadRequest(_) => UploadOutcomeV::ErrBadRequest,
            ServiceError::DuplicateTrackingId(_) => UploadOutcomeV::ErrDuplicateTracking,
            ServiceError::NotFound(_) => UploadOutcomeV::ErrNotFound,
            _ => UploadOutcomeV::ErrInternal,
        },
    }
}

/// Applies one update job.  The caller supplies the fresh embedding of
/// the chunk's content and the resolved sparse vector; for every value
/// of those, the stores end exactly as `spec_update_chunk` says.
pub fn update_chunk(
    payload: &crate::models::UpdateIngestionMessage,
    rel: &mut crate::store::RelationalStore,
    index: &mut crate::store::VectorStore,
    embedding: DenseVector,
    splade_vector: SparseVector,
    now: i64,
) -> (r: Result<(), ServiceError>)
    requires
        old(rel).wf(),
        old(index).wf(),
    ensures
        final(rel).wf(),
        final(index).wf(),
        final(rel).groups == old(rel).groups,
        ({
            let (s2, o) = spec_update_chunk(
                stores_v(*old(rel), *old(index)),
                old(rel).groups_view(),
                payload@,
                embedding@,
                splade_vector@,
                now,
            );
            stores_v(*final(rel), *final(index)) == s2 && spec_unit_outcome_of(r) == o
        }),
{
    let ghost s0 = stores_v(*rel, *index);
    let ghost groupsv = rel.groups_view();
    let ghost mv = payload@;
    let ghost ri = crate::store::spec_row_idx(s0.chunks, mv.chunk_metadata.id);
    let qdrant_point_id: u128 = match rel.get_qdrant_id_from_chunk_id_query(
        payload.chunk_metadata.id,
    ) {
        Ok(p) => p,
        Err(_) => {
            proof {
                crate::store::lemma_row_idx_props(s0.chunks, mv.chunk_metadata.id);
                if ri != -1 {
                    assert(s0.chunks[ri].qdrant_point_id is None) by {
                        if s0.chunks[ri].qdrant_point_id is Some {
                            assert((#[trigger] s0.chunks[ri]).id == mv.chunk_metadata.id);
                        }
                    }
                }
            }
            return Err(ServiceError::BadRequest("chunk not found".to_owned()));
        },
    };
    proof {
        let i = choose|i: int|
            {
                &&& 0 <= i < s0.chunks.len()
                &&& (#[trigger] s0.chunks[i]).id == mv.chunk_metadata.id
                &&& s0.chunks[i].qdrant_point_id == Some(qdrant_point_id)
            };
        crate::store::lemma_row_idx_unique(s0.chunks, mv.chunk_metadata.id, i);
        assert(ri == i);
        assert(s0.chunks[ri].qdrant_point_id == Some(qdrant_point_id));
    }
    let checked_group_ids: Option<Vec<u128>> = match &payload.group_ids {
        Some(gids) => {
            proof {
                assert(mv.group_ids == Some(gids@));
            }
            let mut acc: Vec<u128> = Vec::new();
            let mut k: usize = 0;
            while k < gids.len()
                invariant
                    old(rel).wf(),
                    old(index).wf(),
                    *index == *old(index),
                    k <= gids@.len(),
                    mv.group_ids == Some(gids@),
                    mv == payload@,
                    s0 == stores_v(*old(rel), *old(index)),
                    rel.groups_view() == groupsv,
                    rel.chunks == old(rel).chunks,
                    rel.memberships == old(rel).memberships,
                    rel.groups == old(rel).groups,
                    acc@ =~= gids@.subrange(0, k as int),
                    forall|l: int|
                        0 <= l < k ==> spec_group_owned(
                            groupsv,
                            #[trigger] gids@[l],
                            payload.dataset_id,
                        ),
                decreases gids@.len() - k,
            {
                match rel.dataset_owns_group(gids[k], payload.dataset_id) {
                    Ok(g) => {
                        acc.push(g.id);
                        proof {
                            assert(g@.id == gids@[k as int]);
                            assert(acc@ =~= gids@.subrange(0, k + 1));
                        }
                    },
                    Err(_) => {
                        proof {
                            assert(!spec_group_owned(groupsv, gids@[k as int], payload.dataset_id));
                            assert(mv.group_ids->0[k as int] == gids@[k as int]);
                            assert(!spec_groups_all_owned(
                                groupsv,
                                mv.group_ids->0,
                                mv.dataset_id,
                            ));
                        }
                        return Err(ServiceError::BadRequest(
                            "group does not belong to dataset".to_owned(),
                        ));
                    },
                }
                k = k + 1;
            }
            proof {
                assert(acc@ =~= gids@);
                assert(spec_groups_all_owned(groupsv, mv.group_ids->0, mv.dataset_id));
            }
            Some(acc)
        },
        None => None,
    };
    proof {
        assert(view_opt_vec(checked_group_ids) == mv.group_ids);
    }
    let upd = rel.update_chunk_metadata_query(
        &payload.chunk_metadata,
        &checked_group_ids,
        payload.dataset_id,
        now,
    );
    match upd {
        Err(e) => {
            proof {
                if s0.chunks[ri].dataset_id == mv.dataset_id {
                    assert((#[trigger] s0.chunks[ri]).id == payload.chunk_metadata.id);
                    assert(false);
                }
            }
            Err(e)
        },
        Ok((row_id, row_pid)) => {
            proof {
                let i = choose|i: int|
                    {
                        &&& 0 <= i < s0.chunks.len()
                        &&& (#[trigger] s0.chunks[i]).id == payload.chunk_metadata.id
                        &&& s0.chunks[i].dataset_id == payload.dataset_id
                        &&& rel.chunks_view() == s0.chunks.update(
                            i,
                            crate::store::spec_updated_row(
                                s0.chunks[i],
                                payload.chunk_metadata@,
                                now,
                            ),
                        )
                        &&& (row_id, row_pid) == (
                            s0.chunks[i].id,
                            s0.chunks[i].qdrant_point_id,
                        )
                        &&& rel.memberships@ == (if checked_group_ids is Some {
                            crate::store::spec_memberships_without_chunks(
                                s0.memberships,
                                seq![payload.chunk_metadata.id],
                            ) + crate::store::spec_new_memberships(
                                payload.chunk_metadata.id,
                                view_opt_vec(checked_group_ids),
                            )
                        } else {
                            s0.memberships
                        })
                    };
                crate::store::lemma_row_idx_unique(s0.chunks, mv.chunk_metadata.id, i);
                assert(ri == i);
            }
            let meta_for_point: Option<&ChunkMetadata> =
                if payload.chunk_metadata.qdrant_point_id.is_none() {
                    None
                } else {
                    Some(&payload.chunk_metadata)
                };
            let point_update = index.update_qdrant_point_query(
                meta_for_point,
                qdrant_point_id,
                Some(embedding),
                checked_group_ids,
                payload.dataset_id,
                splade_vector,
            );
            match point_update {
                Ok(()) => {
                    proof {
                        let pi = crate::store::spec_point_idx(s0.points, qdrant_point_id);
                        let j = choose|j: int|
                            {
                                &&& 0 <= j < s0.points.len()
                                &&& (#[trigger] s0.points[j]).point_id == qdrant_point_id
                                &&& index.points_view() == s0.points.update(
                                    j,
                                    crate::store::spec_point_update(
                                        s0.points[j],
                                        match meta_for_point {
                                            Some(m) => Some(m@),
                                            None => None,
                                        },
                                        view_opt_vec(Some(embedding)),
                                        mv.group_ids,
                                        payload.dataset_id,
                                        splade_vector@,
                                    ),
                                )
                            };
                        crate::store::lemma_point_idx_unique(s0.points, qdrant_point_id, j);
                        assert(pi == j);
                        let (s2, o) = spec_update_chunk(
                            s0,
                            groupsv,
                            mv,
                            embedding@,
                            splade_vector@,
                            now,
                        );
                        assert(stores_v(*rel, *index) =~= s2);
                    }
                    Ok(())
                },
                Err(e) => {
                    proof {
                        crate::store::lemma_point_idx_props(s0.points, qdrant_point_id);
                        let (s2, o) = spec_update_chunk(
                            s0,
                            groupsv,
                            mv,
                            embedding@,
                            splade_vector@,
                            now,
                        );
                        assert(stores_v(*rel, *index) =~= s2);
                    }
                    Err(ServiceError::BadRequest(e.message()))
                },
            }
        },
    }
}

/// What re-tagging one member chunk does to the index: the chunk's
/// point gets the merged tag set of all the groups the chunk belongs
/// to; a chunk without a row or point fails the job, touching nothing.
pub open spec fn spec_retag_chunk(
    chunks: Seq<ChunkMetadataView>,
    ms: Seq<crate::store::Membership>,
    groups: Seq<ChunkGroupView>,
    points: Seq<crate::models::PointDataView>,
    chunk_id: u128,
) -> (Seq<crate::models::PointDataView>, UploadOutcomeV) {
    let ri = crate::store::spec_row_idx(chunks, chunk_id);
    if ri == -1 || chunks[ri].qdrant_point_id is None {
        (points, UploadOutcomeV::ErrNotFound)
    } else {
        let pid = chunks[ri].qdrant_point_id->0;
        let pi = crate::store::spec_point_idx(points, pid);
        if pi == -1 {
            (points, UploadOutcomeV::ErrNotFound)
        } else {
            let tags = spec_chunk_tags(groups, Some(crate::store::spec_groups_of_chunk(
                ms,
                chunk_id,
            )));
            (
                points.update(pi, crate::store::spec_point_with_tags(points[pi], tags)),
                UploadOutcomeV::Done(None),
            )
        }
    }
}

/// What a group re-tagging job does: every member chunk is re-tagged
/// in membership order; the first missing row or point aborts the job
/// with the index as the preceding members left it.
pub open spec fn spec_retag_fold(
    chunks: Seq<ChunkMetadataView>,
    ms: Seq<crate::store::Membership>,
    groups: Seq<ChunkGroupView>,
    points: Seq<crate::models::PointDataView>,
    members: Seq<u128>,
) -> (Seq<crate::models::PointDataView>, UploadOutcomeV)
    decreases members.len(),
{
    if members.len() == 0 {
        (points, UploadOutcomeV::Done(None))
    } else {
        let step = spec_retag_chunk(chunks, ms, groups, points, members[0]);
        if !(step.1 is Done) {
            step
        } else {
            spec_retag_fold(chunks, ms, groups, step.0, members.skip(1))
        }
    }
}

/// Re-applies a group's tag-set change onto all its chunks' point
/// payloads: each member's point gets the merged tag sets of all the
/// groups that member belongs to (the previous group value needs no
/// separate removal — the merged set is recomputed from the store).
/// For every index state the job ends exactly as `spec_retag_fold`
/// says.
pub fn update_grouped_chunks_query(
    prev_group: &crate::models::ChunkGroup,
    group: &crate::models::ChunkGroup,
    rel: &crate::store::RelationalStore,
    index: &mut crate::store::VectorStore,
) -> (r: Result<(), ServiceError>)
    requires
        rel.wf(),
        old(index).wf(),
    ensures
        final(index).wf(),
        ({
            let (p2, o) = spec_retag_fold(
                rel.chunks_view(),
                rel.memberships@,
                rel.groups_view(),
                old(index).points_view(),
                crate::store::spec_chunks_of_group(rel.memberships@, group.id),
            );
            final(index).points_view() == p2 && spec_unit_outcome_of(r) == o
        }),
{
    let ghost chunksv = rel.chunks_view();
    let ghost msv = rel.memberships@;
    let ghost groupsv = rel.groups_view();
    let ghost p0 = index.points_view();
    let members: Vec<u128> = rel.chunks_in_group(group.id);
    let ghost mems = members@;
    let ghost fold = spec_retag_fold(chunksv, msv, groupsv, p0, mems);
    let mut k: usize = 0;
    proof {
        assert(mems.skip(0) =~= mems);
    }
    while k < members.len()
        invariant
            rel.wf(),
            index.wf(),
            k <= mems.len(),
            members@ == mems,
            mems == crate::store::spec_chunks_of_group(rel.memberships@, group.id),
            chunksv == rel.chunks_view(),
            msv == rel.memberships@,
            groupsv == rel.groups_view(),
            p0 == old(index).points_view(),
            fold == spec_retag_fold(chunksv, msv, groupsv, p0, mems),
            fold == spec_retag_fold(
                chunksv,
                msv,
                groupsv,
                index.points_view(),
                mems.skip(k as int),
            ),
        decreases mems.len() - k,
    {
        let ghost pre = index.points_view();
        proof {
            assert(mems.skip(k as int)[0] == mems[k as int]);
            assert(mems.skip(k as int).skip(1) =~= mems.skip(k + 1));
        }
        let chunk_id: u128 = members[k];
        let ghost ri = crate::store::spec_row_idx(chunksv, chunk_id);
        let point_id: u128 = match rel.get_qdrant_id_from_chunk_id_query(chunk_id) {
            Ok(p) => p,
            Err(_) => {
                proof {
                    crate::store::lemma_row_idx_props(chunksv, chunk_id);
                    if ri != -1 {
                        assert(chunksv[ri].qdrant_point_id is None) by {
                            if chunksv[ri].qdrant_point_id is Some {
                                assert((#[trigger] chunksv[ri]).id == chunk_id);
                            }
                        }
                    }
                    let step = spec_retag_chunk(chunksv, msv, groupsv, pre, mems[k as int]);
                    assert(step.0 == pre && step.1 is ErrNotFound);
                    assert(fold == step);
                }
                return Err(ServiceError::NotFound("chunk not found".to_owned()));
            },
        };
        proof {
            let i = choose|i: int|
                {
                    &&& 0 <= i < chunksv.len()
                    &&& (#[trigger] chunksv[i]).id == chunk_id
                    &&& chunksv[i].qdrant_point_id == Some(point_id)
                };
            crate::store::lemma_row_idx_unique(chunksv, chunk_id, i);
            assert(ri == i);
        }
        let group_ids: Option<Vec<u128>> = Some(rel.groups_of_chunk(chunk_id));
        let tags = chunk_group_tags(rel, &group_ids);
        proof {
            assert(view_tag_list(tags) == spec_chunk_tags(
                groupsv,
                Some(crate::store::spec_groups_of_chunk(msv, chunk_id)),
            ));
        }
        match index.update_point_group_tags(point_id, tags) {
            Ok(()) => {
                proof {
                    let pi = crate::store::spec_point_idx(pre, point_id);
                    let j = choose|j: int|
                        {
                            &&& 0 <= j < pre.len()
                            &&& (#[trigger] pre[j]).point_id == point_id
                            &&& index.points_view() == pre.update(
                                j,
                                crate::store::spec_point_with_tags(
                                    pre[j],
                                    spec_chunk_tags(
                                        groupsv,
                                        Some(crate::store::spec_groups_of_chunk(msv, chunk_id)),
                                    ),
                                ),
                            )
                        };
                    crate::store::lemma_point_idx_unique(pre, point_id, j);
                    assert(pi == j);
                    let step = spec_retag_chunk(chunksv, msv, groupsv, pre, mems[k as int]);
                    assert(step.1 is Done);
                    assert(index.points_view() == step.0);
                }
            },
            Err(_) => {
                proof {
                    crate::store::lemma_point_idx_props(pre, point_id);
                    let step = spec_retag_chunk(chunksv, msv, groupsv, pre, mems[k as int]);
                    assert(step.0 == pre && step.1 is ErrNotFound);
                    assert(fold == step);
                }
                return Err(ServiceError::NotFound("point not found".to_owned()));
            },
        }
        k = k + 1;
    }
    proof {
        assert(mems.skip(k as int) =~= Seq::<u128>::empty());
        assert(fold == (index.points_view(), UploadOutcomeV::Done(None)));
    }
    Ok(())
}

} // verus!
