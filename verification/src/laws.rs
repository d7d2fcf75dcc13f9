use vstd::prelude::*;
use crate::config::ServerDatasetConfiguration;
use crate::delete::{lemma_contains_concat, lemma_without_ids_compose, lemma_without_nothing};
use crate::models::{
    same_tracking_key, ChunkDataView, ChunkGroupView, ChunkMetadataView, SearchResult,
};
use crate::pipeline::{
    spec_chunks_have_id, spec_collision_hit, spec_new_point, spec_upload_chunk, StoresV,
    UploadOutcomeV,
};
use crate::store::{
    spec_bulk_insert, spec_kept_ids, spec_point_idx, spec_rows_with_points,
    spec_tracking_conflict, spec_tracking_keys_unique, spec_without_ids, RelationalStore,
};

verus! {

/// Tracking-id uniqueness per dataset: in a well-formed store, no two
/// chunk rows claim the same (dataset, tracking id) key.  Every store
/// operation of this library keeps the store well-formed, so the
/// uniqueness is an invariant of the pipeline.
pub proof fn tracking_id_uniqueness(rel: RelationalStore)
    requires
        rel.wf(),
    ensures
        spec_tracking_keys_unique(rel.chunks_view()),
{
}

proof fn lemma_without_same_contains(cs: Seq<ChunkMetadataView>, a: Seq<u128>, b: Seq<u128>)
    requires
        forall|x: u128| a.contains(x) <==> b.contains(x),
    ensures
        spec_without_ids(cs, a) == spec_without_ids(cs, b),
    decreases cs.len(),
{
    if cs.len() > 0 {
        lemma_without_same_contains(cs.skip(1), a, b);
        assert(a.contains(cs[0].id) <==> b.contains(cs[0].id));
    } else {
        assert(spec_without_ids(cs, a) =~= spec_without_ids(cs, b));
    }
}

proof fn lemma_without_fresh_push(cs: Seq<ChunkMetadataView>, m: ChunkMetadataView)
    requires
        !spec_chunks_have_id(cs, m.id),
    ensures
        spec_without_ids(cs.push(m), seq![m.id]) == cs,
    decreases cs.len(),
{
    let ids: Seq<u128> = seq![m.id];
    assert(ids.len() == 1 && ids[0] == m.id);
    if cs.len() == 0 {
        assert(cs.push(m)[0] == m);
        assert(cs.push(m).skip(1) =~= Seq::<ChunkMetadataView>::empty());
        assert(ids.contains(m.id));
        assert(spec_without_ids(Seq::<ChunkMetadataView>::empty(), ids) =~= Seq::<
            ChunkMetadataView,
        >::empty());
        assert(spec_without_ids(cs.push(m), ids) =~= cs);
    } else {
        let tail = cs.skip(1);
        assert(!spec_chunks_have_id(tail, m.id)) by {
            if spec_chunks_have_id(tail, m.id) {
                let w = choose|i: int| 0 <= i < tail.len() && (#[trigger] tail[i]).id == m.id;
                assert(cs[w + 1] == tail[w]);
                assert((#[trigger] cs[w + 1]).id == m.id);
            }
        }
        lemma_without_fresh_push(tail, m);
        assert(cs.push(m)[0] == cs[0]);
        assert(cs.push(m).skip(1) =~= tail.push(m));
        assert(cs[0].id != m.id) by {
            assert(!((#[trigger] cs[0]).id == m.id));
        }
        assert(!ids.contains(cs[0].id)) by {
            if ids.contains(cs[0].id) {
                assert(ids[0] == cs[0].id);
            }
        }
        assert(spec_without_ids(cs.push(m), ids) =~= seq![cs[0]] + spec_without_ids(
            tail.push(m),
            ids,
        ));
        assert(seq![cs[0]] + tail =~= cs);
    }
}

/// Dual-write atomicity: when the vector gateway fails after the bulk
/// relational insert, the compensating delete of exactly the inserted
/// ids restores the chunk table to what it was — either all of a
/// batch's rows and points exist, or none do.
pub proof fn dual_write_atomicity(cs: Seq<ChunkMetadataView>, batch: Seq<ChunkDataView>)
    requires
        forall|k: int|
            0 <= k < batch.len() ==> !spec_chunks_have_id(
                cs,
                (#[trigger] batch[k]).chunk_metadata.id,
            ),
        forall|k: int, l: int|
            0 <= k < l < batch.len() ==> batch[k].chunk_metadata.id != batch[l].chunk_metadata.id,
    ensures
        spec_without_ids(
            spec_bulk_insert(cs, batch).0,
            spec_kept_ids(spec_bulk_insert(cs, batch).1),
        ) == cs,
    decreases batch.len(),
{
    if batch.len() == 0 {
        assert(spec_kept_ids(spec_bulk_insert(cs, batch).1) =~= Seq::<u128>::empty());
        lemma_without_nothing(cs, spec_kept_ids(spec_bulk_insert(cs, batch).1));
    } else {
        let d = batch[0];
        let m = d.chunk_metadata;
        let rest = batch.skip(1);
        assert forall|k: int|
            0 <= k < rest.len() implies !spec_chunks_have_id(
            cs,
            (#[trigger] rest[k]).chunk_metadata.id,
        ) && rest[k].chunk_metadata.id != m.id by {
            assert(rest[k] == batch[k + 1]);
        }
        assert forall|k: int, l: int|
            0 <= k < l < rest.len() implies rest[k].chunk_metadata.id
            != rest[l].chunk_metadata.id by {
            assert(rest[k] == batch[k + 1] && rest[l] == batch[l + 1]);
        }
        if spec_tracking_conflict(cs, m) {
            dual_write_atomicity(cs, rest);
        } else {
            let cs2 = cs.push(m);
            assert forall|k: int|
                0 <= k < rest.len() implies !spec_chunks_have_id(
                cs2,
                (#[trigger] rest[k]).chunk_metadata.id,
            ) by {
                let id2 = rest[k].chunk_metadata.id;
                if spec_chunks_have_id(cs2, id2) {
                    let w = choose|i: int| 0 <= i < cs2.len() && (#[trigger] cs2[i]).id == id2;
                    if w < cs.len() {
                        assert(cs[w] == cs2[w]);
                        assert((#[trigger] cs[w]).id == id2);
                        assert(spec_chunks_have_id(cs, id2));
                    } else {
                        assert(cs2[w] == m);
                    }
                    assert(false);
                }
            }
            dual_write_atomicity(cs2, rest);
            let rec = spec_bulk_insert(cs2, rest);
            let kept_ids = spec_kept_ids(spec_bulk_insert(cs, batch).1);
            let rest_ids = spec_kept_ids(rec.1);
            assert(spec_bulk_insert(cs, batch).0 == rec.0);
            assert(spec_bulk_insert(cs, batch).1 == seq![d] + rec.1);
            assert(kept_ids =~= seq![m.id] + rest_ids);
            assert forall|x: u128| kept_ids.contains(x) implies (rest_ids + seq![m.id]).contains(
                x,
            ) by {
                lemma_contains_concat(seq![m.id], rest_ids, x);
                lemma_contains_concat(rest_ids, seq![m.id], x);
            }
            assert forall|x: u128| (rest_ids + seq![m.id]).contains(x) implies kept_ids.contains(
                x,
            ) by {
                lemma_contains_concat(seq![m.id], rest_ids, x);
                lemma_contains_concat(rest_ids, seq![m.id], x);
            }
            lemma_without_same_contains(rec.0, kept_ids, rest_ids + seq![m.id]);
            lemma_without_ids_compose(rec.0, rest_ids, seq![m.id]);
            assert(spec_without_ids(rec.0, rest_ids) == cs2);
            lemma_without_fresh_push(cs, m);
        }
    }
}

proof fn lemma_conflict_push(cs: Seq<ChunkMetadataView>, m: ChunkMetadataView, x: ChunkMetadataView)
    ensures
        spec_tracking_conflict(cs.push(m), x) <==> spec_tracking_conflict(cs, x)
            || same_tracking_key(m, x),
{
    if spec_tracking_conflict(cs.push(m), x) {
        let w = choose|i: int|
            0 <= i < cs.push(m).len() && same_tracking_key(#[trigger] cs.push(m)[i], x);
        if w < cs.len() {
            assert(cs[w] == cs.push(m)[w]);
            assert(same_tracking_key(#[trigger] cs[w], x));
        } else {
            assert(cs.push(m)[w] == m);
        }
    }
    if spec_tracking_conflict(cs, x) {
        let w = choose|i: int| 0 <= i < cs.len() && same_tracking_key(#[trigger] cs[i], x);
        assert(same_tracking_key(#[trigger] cs.push(m)[w], x));
    }
    if same_tracking_key(m, x) {
        assert(same_tracking_key(#[trigger] cs.push(m)[cs.len() as int], x));
    }
}

proof fn lemma_conflict_monotone(
    cs: Seq<ChunkMetadataView>,
    batch: Seq<ChunkDataView>,
    m: ChunkMetadataView,
)
    requires
        spec_tracking_conflict(cs, m),
    ensures
        spec_tracking_conflict(spec_bulk_insert(cs, batch).0, m),
    decreases batch.len(),
{
    if batch.len() > 0 {
        let d = batch[0];
        if spec_tracking_conflict(cs, d.chunk_metadata) {
            lemma_conflict_monotone(cs, batch.skip(1), m);
        } else {
            lemma_conflict_push(cs, d.chunk_metadata, m);
            lemma_conflict_monotone(cs.push(d.chunk_metadata), batch.skip(1), m);
        }
    }
}

proof fn lemma_keys_present_after(cs: Seq<ChunkMetadataView>, batch: Seq<ChunkDataView>, k: int)
    requires
        0 <= k < batch.len(),
        batch[k].chunk_metadata.tracking_id is Some,
    ensures
        spec_tracking_conflict(spec_bulk_insert(cs, batch).0, batch[k].chunk_metadata),
    decreases batch.len(),
{
    let d = batch[0];
    let m = d.chunk_metadata;
    if k == 0 {
        if spec_tracking_conflict(cs, m) {
            lemma_conflict_monotone(cs, batch.skip(1), m);
        } else {
            assert(same_tracking_key(m, m));
            lemma_conflict_push(cs, m, m);
            lemma_conflict_monotone(cs.push(m), batch.skip(1), m);
        }
    } else {
        assert(batch.skip(1)[k - 1] == batch[k]);
        if spec_tracking_conflict(cs, m) {
            lemma_keys_present_after(cs, batch.skip(1), k - 1);
        } else {
            lemma_keys_present_after(cs.push(m), batch.skip(1), k - 1);
        }
    }
}

proof fn lemma_all_conflict_identity(cs: Seq<ChunkMetadataView>, batch: Seq<ChunkDataView>)
    requires
        forall|k: int|
            0 <= k < batch.len() ==> spec_tracking_conflict(
                cs,
                (#[trigger] batch[k]).chunk_metadata,
            ),
    ensures
        spec_bulk_insert(cs, batch) == (cs, Seq::<ChunkDataView>::empty()),
    decreases batch.len(),
{
    if batch.len() > 0 {
        assert(spec_tracking_conflict(cs, (#[trigger] batch[0]).chunk_metadata));
        assert forall|k: int|
            0 <= k < batch.skip(1).len() implies spec_tracking_conflict(
            cs,
            (#[trigger] batch.skip(1)[k]).chunk_metadata,
        ) by {
            assert(batch.skip(1)[k] == batch[k + 1]);
        }
        lemma_all_conflict_identity(cs, batch.skip(1));
    }
}

/// Idempotency under replay: re-executing a bulk envelope whose
/// messages all carry tracking ids inserts nothing the second time —
/// the chunk table is unchanged and no duplicates appear — because
/// every tracking key of the envelope already exists after the first
/// run.  (A message without a tracking id is not covered: replaying it
/// would insert a second row under its fresh id.)
pub proof fn idempotency_under_replay(
    cs: Seq<ChunkMetadataView>,
    batch: Seq<ChunkDataView>,
    replay: Seq<ChunkDataView>,
)
    requires
        replay.len() == batch.len(),
        forall|k: int|
            0 <= k < batch.len() ==> (#[trigger] batch[k]).chunk_metadata.tracking_id is Some,
        forall|k: int|
            0 <= k < replay.len() ==> (#[trigger] replay[k]).chunk_metadata.tracking_id
                == batch[k].chunk_metadata.tracking_id && replay[k].chunk_metadata.dataset_id
                == batch[k].chunk_metadata.dataset_id,
    ensures
        spec_bulk_insert(spec_bulk_insert(cs, batch).0, replay) == (
            spec_bulk_insert(cs, batch).0,
            Seq::<ChunkDataView>::empty(),
        ),
{
    let s1 = spec_bulk_insert(cs, batch).0;
    assert forall|k: int|
        0 <= k < replay.len() implies spec_tracking_conflict(
        s1,
        (#[trigger] replay[k]).chunk_metadata,
    ) by {
        lemma_keys_present_after(cs, batch, k);
        let w = choose|i: int|
            0 <= i < s1.len() && same_tracking_key(#[trigger] s1[i], batch[k].chunk_metadata);
        assert(same_tracking_key(s1[w], replay[k].chunk_metadata)) by {
            assert(batch[k].chunk_metadata.tracking_id is Some);
            assert(replay[k].chunk_metadata.tracking_id is Some);
        }
        assert(same_tracking_key(#[trigger] s1[w], replay[k].chunk_metadata));
    }
    lemma_all_conflict_identity(s1, replay);
}

/// Collision linkage: on a collision hit against a live winner, and
/// without a tracking conflict, the new chunk row is linked to the
/// winner's point — its point id equals the winner's — and no new
/// point is created: the index keeps exactly as many points as before.
pub proof fn collision_linkage(
    s: StoresV,
    groups: Seq<ChunkGroupView>,
    d: ChunkDataView,
    cfg: ServerDatasetConfiguration,
    emb: Seq<i64>,
    splade: Seq<(u32, i64)>,
    top: Option<SearchResult>,
    write_ok: bool,
)
    requires
        spec_collision_hit(cfg, top),
        spec_rows_with_points(s.chunks, seq![top->0.point_id]).len() != 0,
        spec_point_idx(s.points, top->0.point_id) != -1,
        !spec_tracking_conflict(s.chunks, d.chunk_metadata),
    ensures
        ({
            let (s2, o) = spec_upload_chunk(s, groups, d, cfg, emb, splade, top, write_ok);
            &&& o == UploadOutcomeV::Done(Some(d.chunk_metadata.id))
            &&& s2.chunks.len() == s.chunks.len() + 1
            &&& s2.chunks.last().qdrant_point_id == Some(top->0.point_id)
            &&& s2.chunks.last().id == d.chunk_metadata.id
            &&& s2.points.len() == s.points.len()
        }),
{
    crate::store::lemma_point_idx_props(s.points, top->0.point_id);
    let pi = spec_point_idx(s.points, top->0.point_id);
    assert(0 <= pi < s.points.len());
    let (s2, o) = spec_upload_chunk(s, groups, d, cfg, emb, splade, top, write_ok);
    assert(s2.chunks == s.chunks.push(
        ChunkMetadataView { qdrant_point_id: Some(top->0.point_id), ..d.chunk_metadata },
    ));
    assert(s2.chunks.last() == ChunkMetadataView {
        qdrant_point_id: Some(top->0.point_id),
        ..d.chunk_metadata
    });
}

/// Order preservation in bulk: for a batch free of tracking conflicts
/// — against the store and within itself — whose embeddings all have
/// recognised arities and whose rows all own point ids, the i-th
/// message yields the i-th inserted row, and the i-th point is built
/// from the i-th dense embedding, the i-th sparse vector and the i-th
/// row.
pub proof fn order_preservation_in_bulk(
    cs: Seq<ChunkMetadataView>,
    batch: Seq<ChunkDataView>,
    groups: Seq<ChunkGroupView>,
    embs: Seq<Seq<i64>>,
    splades: Seq<Seq<(u32, i64)>>,
)
    requires
        embs.len() == batch.len(),
        splades.len() == batch.len(),
        forall|k: int|
            0 <= k < batch.len() ==> !spec_tracking_conflict(
                cs,
                (#[trigger] batch[k]).chunk_metadata,
            ),
        forall|k: int, l: int|
            0 <= k < l < batch.len() ==> !same_tracking_key(
                batch[k].chunk_metadata,
                batch[l].chunk_metadata,
            ),
        forall|k: int|
            0 <= k < batch.len() ==> crate::vectors::spec_supported_arity(
                (#[trigger] embs[k]).len() as int,
            ),
        forall|k: int|
            0 <= k < batch.len() ==> (#[trigger] batch[k]).chunk_metadata.qdrant_point_id is Some,
    ensures
        spec_bulk_insert(cs, batch).1 == batch,
        spec_bulk_insert(cs, batch).0 == cs + batch.map_values(
            |d: ChunkDataView| d.chunk_metadata,
        ),
        crate::pipeline::spec_bulk_points(batch, groups, embs, splades).len() == batch.len(),
        forall|i: int|
            0 <= i < batch.len() ==> #[trigger] crate::pipeline::spec_bulk_points(
                batch,
                groups,
                embs,
                splades,
            )[i] == spec_new_point(
                batch[i].chunk_metadata.qdrant_point_id->0,
                batch[i].chunk_metadata,
                batch[i].group_ids,
                groups,
                embs[i],
                splades[i],
            ),
    decreases batch.len(),
{
    if batch.len() == 0 {
        assert(spec_bulk_insert(cs, batch).1 =~= batch);
        assert(cs + batch.map_values(|d: ChunkDataView| d.chunk_metadata) =~= cs);
    } else {
        let d = batch[0];
        let m = d.chunk_metadata;
        let rest = batch.skip(1);
        let cs2 = cs.push(m);
        assert(!spec_tracking_conflict(cs, m)) by {
            assert(!spec_tracking_conflict(cs, (#[trigger] batch[0]).chunk_metadata));
        }
        assert forall|k: int|
            0 <= k < rest.len() implies !spec_tracking_conflict(
            cs2,
            (#[trigger] rest[k]).chunk_metadata,
        ) by {
            assert(rest[k] == batch[k + 1]);
            lemma_conflict_push(cs, m, rest[k].chunk_metadata);
            assert(!same_tracking_key(batch[0].chunk_metadata, batch[k + 1].chunk_metadata));
        }
        assert forall|k: int, l: int|
            0 <= k < l < rest.len() implies !same_tracking_key(
            rest[k].chunk_metadata,
            rest[l].chunk_metadata,
        ) by {
            assert(rest[k] == batch[k + 1] && rest[l] == batch[l + 1]);
        }
        assert forall|k: int|
            0 <= k < rest.len() implies crate::vectors::spec_supported_arity(
            (#[trigger] embs.skip(1)[k]).len() as int,
        ) && (#[trigger] rest[k]).chunk_metadata.qdrant_point_id is Some by {
            assert(rest[k] == batch[k + 1]);
            assert(embs.skip(1)[k] == embs[k + 1]);
        }
        order_preservation_in_bulk(cs2, rest, groups, embs.skip(1), splades.skip(1));
        assert(spec_bulk_insert(cs, batch).1 =~= batch) by {
            assert(spec_bulk_insert(cs, batch).1 == seq![d] + spec_bulk_insert(cs2, rest).1);
        }
        assert(spec_bulk_insert(cs, batch).0 =~= cs + batch.map_values(
            |x: ChunkDataView| x.chunk_metadata,
        )) by {
            assert(spec_bulk_insert(cs2, rest).0 == cs2 + rest.map_values(
                |x: ChunkDataView| x.chunk_metadata,
            ));
        }
        let res = crate::pipeline::spec_bulk_points(batch, groups, embs, splades);
        let restp = crate::pipeline::spec_bulk_points(
            rest,
            groups,
            embs.skip(1),
            splades.skip(1),
        );
        assert(crate::vectors::spec_supported_arity((#[trigger] embs[0]).len() as int));
        assert((#[trigger] batch[0]).chunk_metadata.qdrant_point_id is Some);
        assert(res == seq![
            spec_new_point(
                m.qdrant_point_id->0,
                m,
                d.group_ids,
                groups,
                embs[0],
                splades[0],
            ),
        ] + restp);
        assert forall|i: int|
            0 <= i < batch.len() implies #[trigger] res[i] == spec_new_point(
            batch[i].chunk_metadata.qdrant_point_id->0,
            batch[i].chunk_metadata,
            batch[i].group_ids,
            groups,
            embs[i],
            splades[i],
        ) by {
            if i > 0 {
                assert(res[i] == restp[i - 1]);
                assert(rest[i - 1] == batch[i]);
                assert(embs.skip(1)[i - 1] == embs[i]);
                assert(splades.skip(1)[i - 1] == splades[i]);
            }
        }
    }
}

/// Arity routing, per-message path: an embedding whose length is not a
/// recognised arity is rejected as a bad request before anything is
/// written.
pub proof fn arity_rejected_per_message(
    s: StoresV,
    groups: Seq<ChunkGroupView>,
    d: ChunkDataView,
    cfg: ServerDatasetConfiguration,
    emb: Seq<i64>,
    splade: Seq<(u32, i64)>,
    write_ok: bool,
)
    requires
        !crate::vectors::spec_supported_arity(emb.len() as int),
    ensures
        spec_upload_chunk(s, groups, d, cfg, emb, splade, None, write_ok) == (
            s,
            UploadOutcomeV::ErrBadRequest,
        ),
{
}

/// Arity routing, bulk path: a message whose embedding length is not a
/// recognised arity is skipped before the call — every point the fast
/// path writes carries an embedding of a recognised arity, stored
/// under the field named after it.
pub proof fn arity_skipped_in_bulk(
    batch: Seq<ChunkDataView>,
    groups: Seq<ChunkGroupView>,
    embs: Seq<Seq<i64>>,
    splades: Seq<Seq<(u32, i64)>>,
)
    requires
        embs.len() == batch.len(),
        splades.len() == batch.len(),
    ensures
        forall|t: int|
            0 <= t < crate::pipeline::spec_bulk_points(batch, groups, embs, splades).len()
                ==> crate::vectors::spec_supported_arity(
                (#[trigger] crate::pipeline::spec_bulk_points(
                    batch,
                    groups,
                    embs,
                    splades,
                )[t]).dense.len() as int,
            ),
    decreases batch.len(),
{
    if batch.len() > 0 {
        arity_skipped_in_bulk(batch.skip(1), groups, embs.skip(1), splades.skip(1));
        let res = crate::pipeline::spec_bulk_points(batch, groups, embs, splades);
        let rest = crate::pipeline::spec_bulk_points(
            batch.skip(1),
            groups,
            embs.skip(1),
            splades.skip(1),
        );
        let kept0 = crate::vectors::spec_supported_arity(embs[0].len() as int)
            && batch[0].chunk_metadata.qdrant_point_id is Some;
        assert forall|t: int|
            0 <= t < res.len() implies crate::vectors::spec_supported_arity(
            (#[trigger] res[t]).dense.len() as int,
        ) by {
            if kept0 && t == 0 {
            } else {
                if kept0 {
                    assert(res[t] == rest[t - 1]);
                } else {
                    assert(res[t] == rest[t]);
                }
            }
        }
    }
}

} // verus!
