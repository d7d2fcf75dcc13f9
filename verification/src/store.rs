use vstd::prelude::*;
use crate::dup::{clone_chunk_group, clone_chunk_metadata, clone_opt_string};
use crate::errors::ServiceError;
use crate::models::{
    has_tracking_id, same_tracking_key, view_opt_vec, ChunkData, ChunkDataView, ChunkGroup,
    ChunkGroupView, ChunkMetadata, ChunkMetadataView, DenseVector, PointData, PointDataView,
    QdrantPayload, SparseVector,
};

verus! {

/// Membership row: (chunk id, group id).
pub type Membership = (u128, u128);

/// Model of the relational store: chunk rows, chunk-group membership
/// rows, and group records.  The store enforces what the database's
/// constraints enforce: chunk ids are unique, and a non-empty tracking
/// id appears at most once per dataset.
pub struct RelationalStore {
    pub chunks: Vec<ChunkMetadata>,
    pub memberships: Vec<Membership>,
    pub groups: Vec<ChunkGroup>,
}

/// No two rows share a chunk id.
pub open spec fn spec_chunk_ids_unique(cs: Seq<ChunkMetadataView>) -> bool {
    forall|i: int, j: int| #![trigger cs[i], cs[j]] 0 <= i < j < cs.len() ==> cs[i].id != cs[j].id
}

/// No two rows share a (dataset, tracking id) key.
pub open spec fn spec_tracking_keys_unique(cs: Seq<ChunkMetadataView>) -> bool {
    forall|i: int, j: int|
        #![trigger cs[i], cs[j]]
        0 <= i < j < cs.len() ==> !same_tracking_key(cs[i], cs[j])
}

/// Whether some row of `cs` claims the same tracking key as `m`.
pub open spec fn spec_tracking_conflict(cs: Seq<ChunkMetadataView>, m: ChunkMetadataView) -> bool {
    exists|i: int| 0 <= i < cs.len() && same_tracking_key(#[trigger] cs[i], m)
}

/// No two groups share an id.
pub open spec fn spec_group_ids_unique(gs: Seq<ChunkGroupView>) -> bool {
    forall|i: int, j: int| #![trigger gs[i], gs[j]] 0 <= i < j < gs.len() ==> gs[i].id != gs[j].id
}

/// The membership rows that tie a chunk to its groups.
pub open spec fn spec_new_memberships(chunk_id: u128, group_ids: Option<Seq<u128>>) -> Seq<
    Membership,
> {
    match group_ids {
        Some(g) => g.map_values(|gid: u128| (chunk_id, gid)),
        None => Seq::empty(),
    }
}

/// The row an upsert by tracking id writes: the new fields under the
/// replaced row's identity, point id and creation time.
pub open spec fn spec_upsert_replacement(
    old_row: ChunkMetadataView,
    m: ChunkMetadataView,
) -> ChunkMetadataView {
    ChunkMetadataView {
        id: old_row.id,
        qdrant_point_id: old_row.qdrant_point_id,
        created_at: old_row.created_at,
        ..m
    }
}

/// What a bulk insert leaves behind: the final chunk table and the
/// batch elements actually inserted, in input order.  An element whose
/// tracking key already exists — in the store or earlier in the batch —
/// is dropped silently.
pub open spec fn spec_bulk_insert(cs: Seq<ChunkMetadataView>, batch: Seq<ChunkDataView>) -> (
    Seq<ChunkMetadataView>,
    Seq<ChunkDataView>,
)
    decreases batch.len(),
{
    if batch.len() == 0 {
        (cs, Seq::empty())
    } else {
        let d = batch[0];
        if spec_tracking_conflict(cs, d.chunk_metadata) {
            spec_bulk_insert(cs, batch.skip(1))
        } else {
            let rec = spec_bulk_insert(cs.push(d.chunk_metadata), batch.skip(1));
            (rec.0, seq![d] + rec.1)
        }
    }
}

/// The ids of the batch elements a bulk insert kept.
pub open spec fn spec_kept_ids(kept: Seq<ChunkDataView>) -> Seq<u128> {
    kept.map_values(|d: ChunkDataView| d.chunk_metadata.id)
}

/// The membership rows written for the kept batch elements.
pub open spec fn spec_batch_memberships(kept: Seq<ChunkDataView>) -> Seq<Membership>
    decreases kept.len(),
{
    if kept.len() == 0 {
        Seq::empty()
    } else {
        spec_new_memberships(kept[0].chunk_metadata.id, kept[0].group_ids)
            + spec_batch_memberships(kept.skip(1))
    }
}

proof fn lemma_batch_memberships_push(kept: Seq<ChunkDataView>, d: ChunkDataView)
    ensures
        spec_batch_memberships(kept.push(d)) == spec_batch_memberships(kept)
            + spec_new_memberships(d.chunk_metadata.id, d.group_ids),
    decreases kept.len(),
{
    if kept.len() == 0 {
        assert(kept.push(d)[0] == d);
        assert(kept.push(d).skip(1) =~= Seq::<ChunkDataView>::empty());
        assert(spec_batch_memberships(Seq::<ChunkDataView>::empty()) =~= Seq::<
            Membership,
        >::empty());
        assert(spec_batch_memberships(kept.push(d)) =~= spec_new_memberships(
            d.chunk_metadata.id,
            d.group_ids,
        ));
        assert(spec_batch_memberships(kept) + spec_new_memberships(
            d.chunk_metadata.id,
            d.group_ids,
        ) =~= spec_new_memberships(d.chunk_metadata.id, d.group_ids));
    } else {
        lemma_batch_memberships_push(kept.skip(1), d);
        assert(kept.push(d).skip(1) =~= kept.skip(1).push(d));
        assert(kept.push(d)[0] == kept[0]);
        assert(spec_batch_memberships(kept.push(d)) =~= spec_batch_memberships(kept)
            + spec_new_memberships(d.chunk_metadata.id, d.group_ids));
    }
}

/// The rows of `cs` whose id is not listed in `ids`, in order.
pub open spec fn spec_without_ids(cs: Seq<ChunkMetadataView>, ids: Seq<u128>) -> Seq<
    ChunkMetadataView,
>
    decreases cs.len(),
{
    if cs.len() == 0 {
        Seq::empty()
    } else {
        let rest = spec_without_ids(cs.skip(1), ids);
        if ids.contains(cs[0].id) {
            rest
        } else {
            seq![cs[0]] + rest
        }
    }
}

/// The membership rows whose chunk id is not listed in `ids`, in order.
pub open spec fn spec_memberships_without_chunks(ms: Seq<Membership>, ids: Seq<u128>) -> Seq<
    Membership,
>
    decreases ms.len(),
{
    if ms.len() == 0 {
        Seq::empty()
    } else {
        let rest = spec_memberships_without_chunks(ms.skip(1), ids);
        if ids.contains(ms[0].0) {
            rest
        } else {
            seq![ms[0]] + rest
        }
    }
}

proof fn lemma_keys_unique_after_update(
    cs: Seq<ChunkMetadataView>,
    i: int,
    repl: ChunkMetadataView,
)
    requires
        spec_chunk_ids_unique(cs),
        spec_tracking_keys_unique(cs),
        0 <= i < cs.len(),
        repl.id == cs[i].id,
        repl.dataset_id == cs[i].dataset_id,
        repl.tracking_id == cs[i].tracking_id,
    ensures
        spec_chunk_ids_unique(cs.update(i, repl)),
        spec_tracking_keys_unique(cs.update(i, repl)),
{
    let nu = cs.update(i, repl);
    assert forall|a: int, b: int|
        #![trigger nu[a], nu[b]]
        0 <= a < b < nu.len() implies nu[a].id != nu[b].id && !same_tracking_key(
        nu[a],
        nu[b],
    ) by {
        assert(cs[a].id != cs[b].id);
        assert(!same_tracking_key(cs[a], cs[b]));
        if a == i {
            assert(nu[a] == repl && nu[b] == cs[b]);
        } else if b == i {
            assert(nu[a] == cs[a] && nu[b] == repl);
        } else {
            assert(nu[a] == cs[a] && nu[b] == cs[b]);
        }
    }
}

pub proof fn lemma_without_ids_props(cs: Seq<ChunkMetadataView>, ids: Seq<u128>)
    ensures
        forall|m: ChunkMetadataView|
            #[trigger] spec_without_ids(cs, ids).contains(m) ==> cs.contains(m) && !ids.contains(
                m.id,
            ),
        spec_chunk_ids_unique(cs) && spec_tracking_keys_unique(cs) ==> spec_chunk_ids_unique(
            spec_without_ids(cs, ids),
        ) && spec_tracking_keys_unique(spec_without_ids(cs, ids)),
    decreases cs.len(),
{
    if cs.len() > 0 {
        let tail = cs.skip(1);
        lemma_without_ids_props(tail, ids);
        let rest = spec_without_ids(tail, ids);
        let res = spec_without_ids(cs, ids);
        assert forall|m: ChunkMetadataView| #[trigger] res.contains(m) implies cs.contains(m)
            && !ids.contains(m.id) by {
            let k = choose|k: int| 0 <= k < res.len() && res[k] == m;
            if !ids.contains(cs[0].id) && k == 0 {
                assert(res[0] == cs[0]);
                assert(cs[0] == m);
            } else {
                if ids.contains(cs[0].id) {
                    assert(res[k] == rest[k]);
                    assert(rest.contains(m));
                } else {
                    assert(res[k] == rest[k - 1]);
                    assert(rest.contains(m));
                }
                let t = choose|t: int| 0 <= t < tail.len() && tail[t] == m;
                assert(cs[t + 1] == m);
            }
        }
        if spec_chunk_ids_unique(cs) && spec_tracking_keys_unique(cs) {
            assert(spec_chunk_ids_unique(tail) && spec_tracking_keys_unique(tail)) by {
                assert forall|i: int, j: int| 0 <= i < j < tail.len() implies tail[i].id
                    != tail[j].id && !same_tracking_key(tail[i], tail[j]) by {
                    assert(cs[i + 1] == tail[i] && cs[j + 1] == tail[j]);
                }
            }
            if !ids.contains(cs[0].id) {
                assert forall|i: int, j: int|
                    0 <= i < j < res.len() implies #[trigger] res[i].id != #[trigger] res[j].id by {
                    if i == 0 {
                        assert(res[0] == cs[0]);
                        assert(res[j] == rest[j - 1]);
                        assert(rest.contains(rest[j - 1]));
                        let k = choose|k: int| 0 <= k < tail.len() && tail[k] == res[j];
                        assert(cs[k + 1] == res[j]);
                        assert(cs[0].id != cs[k + 1].id);
                    } else {
                        assert(res[i] == rest[i - 1] && res[j] == rest[j - 1]);
                    }
                }
                assert forall|i: int, j: int|
                    0 <= i < j < res.len() implies !same_tracking_key(
                    #[trigger] res[i],
                    #[trigger] res[j],
                ) by {
                    if i == 0 {
                        assert(res[0] == cs[0]);
                        assert(res[j] == rest[j - 1]);
                        assert(rest.contains(rest[j - 1]));
                        let k = choose|k: int| 0 <= k < tail.len() && tail[k] == res[j];
                        assert(cs[k + 1] == res[j]);
                        assert(!same_tracking_key(cs[0], cs[k + 1]));
                    } else {
                        assert(res[i] == rest[i - 1] && res[j] == rest[j - 1]);
                    }
                }
                assert(spec_chunk_ids_unique(res));
                assert(spec_tracking_keys_unique(res));
            } else {
                assert(res == rest);
            }
        }
    }
}

impl RelationalStore {
    /// The mathematical contents of the chunk table.
    pub open spec fn chunks_view(&self) -> Seq<ChunkMetadataView> {
        self.chunks@.map_values(|m: ChunkMetadata| m@)
    }

    /// The mathematical contents of the group table.
    pub open spec fn groups_view(&self) -> Seq<ChunkGroupView> {
        self.groups@.map_values(|g: ChunkGroup| g@)
    }

    /// The store's integrity constraints.
    pub open spec fn wf(&self) -> bool {
        spec_chunk_ids_unique(self.chunks_view()) && spec_tracking_keys_unique(self.chunks_view())
            && spec_group_ids_unique(self.groups_view())
    }

    /// Whether a chunk row with this id exists.
    pub open spec fn spec_has_chunk_id(&self, id: u128) -> bool {
        exists|i: int|
            0 <= i < self.chunks_view().len() && (#[trigger] self.chunks_view()[i]).id == id
    }

    /// Whether a group with this id exists.
    pub open spec fn spec_has_group_id(&self, id: u128) -> bool {
        exists|i: int|
            0 <= i < self.groups_view().len() && (#[trigger] self.groups_view()[i]).id == id
    }

    /// An empty relational store.
    pub fn new() -> (r: RelationalStore)
        ensures
            r.wf(),
            r.chunks_view() == Seq::<ChunkMetadataView>::empty(),
            r.memberships@ == Seq::<Membership>::empty(),
            r.groups_view() == Seq::<ChunkGroupView>::empty(),
    {
        let r = RelationalStore { chunks: Vec::new(), memberships: Vec::new(), groups: Vec::new() };
        proof {
            assert(r.chunks_view() =~= Seq::<ChunkMetadataView>::empty());
            assert(r.groups_view() =~= Seq::<ChunkGroupView>::empty());
        }
        r
    }

    /// Registers a group record, for producers that create groups.
    pub fn add_group(&mut self, group: ChunkGroup)
        requires
            old(self).wf(),
            !old(self).spec_has_group_id(group.id),
        ensures
            final(self).wf(),
            final(self).groups_view() == old(self).groups_view().push(group@),
            final(self).chunks == old(self).chunks,
            final(self).memberships == old(self).memberships,
    {
        let ghost g = group@;
        self.groups.push(group);
        proof {
            assert(self.groups_view() =~= old(self).groups_view().push(g));
            assert(self.chunks_view() =~= old(self).chunks_view());
        }
    }

    fn tracking_key_matches(row: &ChunkMetadata, m: &ChunkMetadata) -> (r: bool)
        ensures
            r == same_tracking_key(row@, m@),
    {
        if row.dataset_id != m.dataset_id {
            return false;
        }
        match (&row.tracking_id, &m.tracking_id) {
            (Some(a), Some(b)) => *a == *b,
            _ => false,
        }
    }

    fn find_tracking_conflict(&self, m: &ChunkMetadata) -> (r: Option<usize>)
        ensures
            r is Some ==> 0 <= r->0 < self.chunks_view().len() && same_tracking_key(
                self.chunks_view()[r->0 as int],
                m@,
            ),
            r is None ==> !spec_tracking_conflict(self.chunks_view(), m@),
    {
        let mut i: usize = 0;
        while i < self.chunks.len()
            invariant
                i <= self.chunks@.len(),
                forall|k: int|
                    0 <= k < i ==> !same_tracking_key(#[trigger] self.chunks_view()[k], m@),
            decreases self.chunks@.len() - i,
        {
            if Self::tracking_key_matches(&self.chunks[i], m) {
                return Some(i);
            }
            i = i + 1;
        }
        None
    }

    fn push_memberships(&mut self, chunk_id: u128, group_ids: &Option<Vec<u128>>)
        ensures
            final(self).memberships@ == old(self).memberships@ + spec_new_memberships(
                chunk_id,
                view_opt_vec(*group_ids),
            ),
            final(self).chunks == old(self).chunks,
            final(self).groups == old(self).groups,
    {
        match group_ids {
            Some(gs) => {
                let ghost target = spec_new_memberships(chunk_id, view_opt_vec(*group_ids));
                let mut k: usize = 0;
                while k < gs.len()
                    invariant
                        k <= gs@.len(),
                        target == gs@.map_values(|gid: u128| (chunk_id, gid)),
                        self.memberships@ =~= old(self).memberships@ + target.subrange(
                            0,
                            k as int,
                        ),
                        self.chunks == old(self).chunks,
                        self.groups == old(self).groups,
                    decreases gs@.len() - k,
                {
                    self.memberships.push((chunk_id, gs[k]));
                    assert(self.memberships@ =~= old(self).memberships@ + target.subrange(
                        0,
                        k + 1,
                    ));
                    k = k + 1;
                }
                assert(self.memberships@ =~= old(self).memberships@ + target);
            },
            None => {
                assert(self.memberships@ =~= old(self).memberships@ + spec_new_memberships(
                    chunk_id,
                    view_opt_vec(*group_ids),
                ));
            },
        }
    }

    fn push_fresh_row(&mut self, meta: ChunkMetadata, group_ids: &Option<Vec<u128>>)
        requires
            old(self).wf(),
            !old(self).spec_has_chunk_id(meta.id),
            !spec_tracking_conflict(old(self).chunks_view(), meta@),
        ensures
            final(self).wf(),
            final(self).groups == old(self).groups,
            final(self).chunks_view() == old(self).chunks_view().push(meta@),
            final(self).memberships@ == old(self).memberships@ + spec_new_memberships(
                meta.id,
                view_opt_vec(*group_ids),
            ),
    {
        let row_id: u128 = meta.id;
        let ghost mv = meta@;
        self.chunks.push(meta);
        proof {
            assert(self.chunks_view() =~= old(self).chunks_view().push(mv));
        }
        self.push_memberships(row_id, group_ids);
        proof {
            let cs = old(self).chunks_view();
            let nu = self.chunks_view();
            assert forall|a: int, b: int| 0 <= a < b < nu.len() implies nu[a].id != nu[b].id
                && !same_tracking_key(nu[a], nu[b]) by {
                if b < cs.len() {
                    assert(nu[a] == cs[a] && nu[b] == cs[b]);
                } else {
                    assert(nu[a] == cs[a] && nu[b] == mv);
                    assert(cs[a].id != mv.id);
                }
            }
            assert(self.groups_view() =~= old(self).groups_view());
        }
    }

    /// Inserts one chunk row, with upsert-by-tracking-id semantics:
    /// when the row's tracking key already exists in the dataset, the
    /// upsert flag decides between replacing that row (keeping its id,
    /// its point id and its creation time) and failing with a duplicate
    /// tracking id; the store is untouched on failure.  Membership rows
    /// for `group_ids` are written beside a successful insert.  Returns
    /// the id and point id of the row actually written.
    pub fn insert_chunk_metadata_query(
        &mut self,
        meta: ChunkMetadata,
        group_ids: &Option<Vec<u128>>,
        upsert_by_tracking_id: bool,
    ) -> (r: Result<(u128, Option<u128>), ServiceError>)
        requires
            old(self).wf(),
            !old(self).spec_has_chunk_id(meta.id),
        ensures
            final(self).wf(),
            final(self).groups == old(self).groups,
            r is Err <==> (!upsert_by_tracking_id && spec_tracking_conflict(
                old(self).chunks_view(),
                meta@,
            )),
            r is Err ==> r->Err_0 is DuplicateTrackingId && final(self).chunks == old(self).chunks
                && final(self).memberships == old(self).memberships,
            (upsert_by_tracking_id && spec_tracking_conflict(old(self).chunks_view(), meta@))
                ==> (r is Ok && exists|i: int|
                {
                    &&& 0 <= i < old(self).chunks_view().len()
                    &&& same_tracking_key(#[trigger] old(self).chunks_view()[i], meta@)
                    &&& final(self).chunks_view() == old(self).chunks_view().update(
                        i,
                        spec_upsert_replacement(old(self).chunks_view()[i], meta@),
                    )
                    &&& r->Ok_0 == (
                        old(self).chunks_view()[i].id,
                        old(self).chunks_view()[i].qdrant_point_id,
                    )
                    &&& final(self).memberships@ == old(self).memberships@ + spec_new_memberships(
                        old(self).chunks_view()[i].id,
                        view_opt_vec(*group_ids),
                    )
                }),
            !spec_tracking_conflict(old(self).chunks_view(), meta@) ==> {
                &&& r is Ok
                &&& r->Ok_0 == (meta.id, meta.qdrant_point_id)
                &&& final(self).chunks_view() == old(self).chunks_view().push(meta@)
                &&& final(self).memberships@ == old(self).memberships@ + spec_new_memberships(
                    meta.id,
                    view_opt_vec(*group_ids),
                )
            },
    {
        match self.find_tracking_conflict(&meta) {
            Some(i) => {
                if upsert_by_tracking_id {
                    let row_id: u128 = self.chunks[i].id;
                    let row_pid: Option<u128> = self.chunks[i].qdrant_point_id;
                    let row_created: i64 = self.chunks[i].created_at;
                    let ghost old_row = self.chunks_view()[i as int];
                    let replaced = ChunkMetadata {
                        id: row_id,
                        qdrant_point_id: row_pid,
                        created_at: row_created,
                        ..meta
                    };
                    proof {
                        assert(replaced@ =~= spec_upsert_replacement(old_row, meta@));
                    }
                    self.chunks.set(i, replaced);
                    proof {
                        assert(self.chunks_view() =~= old(self).chunks_view().update(
                            i as int,
                            spec_upsert_replacement(old_row, meta@),
                        ));
                    }
                    self.push_memberships(row_id, group_ids);
                    proof {
                        let cs = old(self).chunks_view();
                        let repl = spec_upsert_replacement(old_row, meta@);
                        assert(old_row == cs[i as int]);
                        assert(same_tracking_key(cs[i as int], meta@));
                        assert(repl.tracking_id == cs[i as int].tracking_id) by {
                            assert(cs[i as int].tracking_id is Some && meta@.tracking_id is Some);
                            assert(cs[i as int].tracking_id->0 == meta@.tracking_id->0);
                        }
                        assert(repl.dataset_id == cs[i as int].dataset_id);
                        lemma_keys_unique_after_update(cs, i as int, repl);
                    }
                    Ok((row_id, row_pid))
                } else {
                    let t: String = match &meta.tracking_id {
                        Some(t) => t.clone(),
                        None => String::new(),
                    };
                    Err(ServiceError::DuplicateTrackingId(t))
                }
            },
            None => {
                let row_id: u128 = meta.id;
                let row_pid: Option<u128> = meta.qdrant_point_id;
                self.push_fresh_row(meta, group_ids);
                Ok((row_id, row_pid))
            },
        }
    }

    /// Bulk insert with silent de-duplication by (dataset, tracking id),
    /// both against existing rows and within the batch: exactly the
    /// batch elements without such a conflict are inserted, in input
    /// order, with their membership rows.  Returns the inserted ids, in
    /// input order; the caller compares sizes to detect collisions.
    pub fn bulk_insert_chunk_metadata_query(&mut self, data: &Vec<ChunkData>) -> (r: Vec<u128>)
        requires
            old(self).wf(),
            forall|k: int|
                0 <= k < data@.len() ==> !old(self).spec_has_chunk_id(
                    (#[trigger] data@[k]).chunk_metadata.id,
                ),
            forall|k: int, l: int|
                0 <= k < l < data@.len() ==> data@[k].chunk_metadata.id
                    != data@[l].chunk_metadata.id,
        ensures
            final(self).wf(),
            final(self).groups == old(self).groups,
            final(self).chunks_view() == spec_bulk_insert(
                old(self).chunks_view(),
                data@.map_values(|d: ChunkData| d@),
            ).0,
            r@ == spec_kept_ids(
                spec_bulk_insert(old(self).chunks_view(), data@.map_values(|d: ChunkData| d@)).1,
            ),
            final(self).memberships@ == old(self).memberships@ + spec_batch_memberships(
                spec_bulk_insert(old(self).chunks_view(), data@.map_values(|d: ChunkData| d@)).1,
            ),
    {
        let ghost batch = data@.map_values(|d: ChunkData| d@);
        let ghost cs0 = old(self).chunks_view();
        let ghost target = spec_bulk_insert(cs0, batch);
        let mut r: Vec<u128> = Vec::new();
        let ghost mut kept: Seq<ChunkDataView> = Seq::empty();
        let mut k: usize = 0;
        proof {
            assert(batch.skip(0) =~= batch);
            assert(Seq::<ChunkDataView>::empty() + target.1 =~= target.1);
            assert(spec_batch_memberships(Seq::<ChunkDataView>::empty()) =~= Seq::<
                Membership,
            >::empty());
            assert(self.memberships@ =~= old(self).memberships@ + spec_batch_memberships(kept));
        }
        while k < data.len()
            invariant
                k <= data@.len(),
                batch == data@.map_values(|d: ChunkData| d@),
                target == spec_bulk_insert(cs0, batch),
                self.wf(),
                self.groups == old(self).groups,
                target.0 == spec_bulk_insert(self.chunks_view(), batch.skip(k as int)).0,
                target.1 =~= kept + spec_bulk_insert(self.chunks_view(), batch.skip(k as int)).1,
                r@ == spec_kept_ids(kept),
                self.memberships@ == old(self).memberships@ + spec_batch_memberships(kept),
                forall|l: int|
                    k <= l < data@.len() ==> !self.spec_has_chunk_id(
                        (#[trigger] data@[l]).chunk_metadata.id,
                    ),
                forall|l: int, t: int|
                    0 <= l < t < data@.len() ==> data@[l].chunk_metadata.id
                        != data@[t].chunk_metadata.id,
            decreases data@.len() - k,
        {
            let ghost pre = self.chunks_view();
            let ghost rem = batch.skip(k as int);
            proof {
                assert(rem[0] == batch[k as int]);
                assert(batch[k as int] == data@[k as int]@);
                assert(rem.skip(1) =~= batch.skip(k + 1));
            }
            let d: &ChunkData = &data[k];
            match self.find_tracking_conflict(&d.chunk_metadata) {
                Some(_) => {
                    proof {
                        assert(spec_tracking_conflict(pre, rem[0].chunk_metadata));
                        assert(spec_bulk_insert(pre, rem) == spec_bulk_insert(pre, rem.skip(1)));
                    }
                },
                None => {
                    let meta = clone_chunk_metadata(&d.chunk_metadata);
                    let gids = crate::dup::copy_opt_vec(&d.group_ids);
                    let row_id: u128 = meta.id;
                    proof {
                        assert(meta@ == rem[0].chunk_metadata);
                        assert(view_opt_vec(gids) == rem[0].group_ids);
                        assert(!spec_tracking_conflict(pre, rem[0].chunk_metadata));
                        assert(spec_bulk_insert(pre, rem).0 == spec_bulk_insert(
                            pre.push(rem[0].chunk_metadata),
                            rem.skip(1),
                        ).0);
                        assert(spec_bulk_insert(pre, rem).1 == seq![rem[0]] + spec_bulk_insert(
                            pre.push(rem[0].chunk_metadata),
                            rem.skip(1),
                        ).1);
                    }
                    self.push_fresh_row(meta, &gids);
                    r.push(row_id);
                    proof {
                        lemma_batch_memberships_push(kept, rem[0]);
                        kept = kept.push(rem[0]);
                        assert(target.1 =~= kept + spec_bulk_insert(
                            self.chunks_view(),
                            batch.skip(k + 1),
                        ).1);
                        assert(r@ =~= spec_kept_ids(kept));
                        assert(self.memberships@ =~= old(self).memberships@
                            + spec_batch_memberships(kept));
                        assert forall|l: int|
                            k + 1 <= l < data@.len() implies !self.spec_has_chunk_id(
                            (#[trigger] data@[l]).chunk_metadata.id,
                        ) by {
                            let nu = self.chunks_view();
                            let id = data@[l].chunk_metadata.id;
                            assert(data@[k as int].chunk_metadata.id != id);
                            assert forall|t: int| 0 <= t < nu.len() implies (#[trigger] nu[t]).id
                                != id by {
                                if t < pre.len() {
                                    assert(nu[t] == pre[t]);
                                } else {
                                    assert(nu[t] == rem[0].chunk_metadata);
                                }
                            }
                        }
                    }
                },
            }
            k = k + 1;
        }
        proof {
            assert(batch.skip(k as int) =~= Seq::<ChunkDataView>::empty());
            assert(spec_bulk_insert(self.chunks_view(), batch.skip(k as int)).0
                == self.chunks_view());
            assert(target.1 =~= kept);
        }
        r
    }

    /// Inserts a collision row: the new chunk's fields under the
    /// collision winner's point id, so that the row shares the winner's
    /// point instead of owning one.  A tracking-key conflict is rejected
    /// as a duplicate tracking id, leaving the store untouched.
    pub fn insert_duplicate_chunk_metadata_query(
        &mut self,
        meta: ChunkMetadata,
        winner_point_id: u128,
        group_ids: &Option<Vec<u128>>,
    ) -> (r: Result<u128, ServiceError>)
        requires
            old(self).wf(),
            !old(self).spec_has_chunk_id(meta.id),
        ensures
            final(self).wf(),
            final(self).groups == old(self).groups,
            r is Err <==> spec_tracking_conflict(old(self).chunks_view(), meta@),
            r is Err ==> r->Err_0 is DuplicateTrackingId && final(self).chunks == old(self).chunks
                && final(self).memberships == old(self).memberships,
            r is Ok ==> {
                &&& r->Ok_0 == meta.id
                &&& final(self).chunks_view() == old(self).chunks_view().push(
                    ChunkMetadataView { qdrant_point_id: Some(winner_point_id), ..meta@ },
                )
                &&& final(self).memberships@ == old(self).memberships@ + spec_new_memberships(
                    meta.id,
                    view_opt_vec(*group_ids),
                )
            },
    {
        match self.find_tracking_conflict(&meta) {
            Some(_) => {
                let t: String = match &meta.tracking_id {
                    Some(t) => t.clone(),
                    None => String::new(),
                };
                Err(ServiceError::DuplicateTrackingId(t))
            },
            None => {
                let row_id: u128 = meta.id;
                let ghost mv = meta@;
                let row = ChunkMetadata { qdrant_point_id: Some(winner_point_id), ..meta };
                proof {
                    assert(row@ =~= ChunkMetadataView {
                        qdrant_point_id: Some(winner_point_id),
                        ..mv
                    });
                    let cs = self.chunks_view();
                    assert forall|i: int| 0 <= i < cs.len() implies !same_tracking_key(
                        #[trigger] cs[i],
                        row@,
                    ) by {
                        assert(!same_tracking_key(cs[i], mv));
                    }
                }
                self.push_fresh_row(row, group_ids);
                Ok(row_id)
            },
        }
    }

    /// Compensating delete: removes the rows whose id is listed, with
    /// their membership rows, reverting a bulk insert after a failed
    /// vector write.
    pub fn bulk_revert_insert_chunk_metadata_query(&mut self, ids: &Vec<u128>)
        requires
            old(self).wf(),
        ensures
            final(self).wf(),
            final(self).groups == old(self).groups,
            final(self).chunks_view() == spec_without_ids(old(self).chunks_view(), ids@),
            final(self).memberships@ == spec_memberships_without_chunks(
                old(self).memberships@,
                ids@,
            ),
    {
        let ghost cs0 = self.chunks_view();
        let ghost ms0 = self.memberships@;
        let mut new_chunks: Vec<ChunkMetadata> = Vec::new();
        let mut i: usize = 0;
        proof {
            assert(cs0.skip(0) =~= cs0);
            assert(new_chunks@.map_values(|m: ChunkMetadata| m@) =~= Seq::<
                ChunkMetadataView,
            >::empty());
        }
        while i < self.chunks.len()
            invariant
                i <= self.chunks@.len(),
                cs0 == self.chunks_view(),
                new_chunks@.map_values(|m: ChunkMetadata| m@) + spec_without_ids(
                    cs0.skip(i as int),
                    ids@,
                ) =~= spec_without_ids(cs0, ids@),
            decreases self.chunks@.len() - i,
        {
            let ghost rem = cs0.skip(i as int);
            proof {
                assert(rem[0] == cs0[i as int]);
                assert(rem.skip(1) =~= cs0.skip(i + 1));
            }
            if !contains_id(ids, self.chunks[i].id) {
                let row = clone_chunk_metadata(&self.chunks[i]);
                new_chunks.push(row);
                proof {
                    assert(new_chunks@.map_values(|m: ChunkMetadata| m@)
                        =~= new_chunks@.drop_last().map_values(|m: ChunkMetadata| m@).push(
                        cs0[i as int],
                    ));
                }
            }
            proof {
                assert(new_chunks@.map_values(|m: ChunkMetadata| m@) + spec_without_ids(
                    cs0.skip(i + 1),
                    ids@,
                ) =~= spec_without_ids(cs0, ids@));
            }
            i = i + 1;
        }
        proof {
            assert(cs0.skip(i as int) =~= Seq::<ChunkMetadataView>::empty());
            assert(new_chunks@.map_values(|m: ChunkMetadata| m@) =~= spec_without_ids(cs0, ids@));
        }
        self.chunks = new_chunks;
        let mut new_ms: Vec<Membership> = Vec::new();
        let mut k: usize = 0;
        proof {
            assert(ms0.skip(0) =~= ms0);
        }
        while k < self.memberships.len()
            invariant
                k <= self.memberships@.len(),
                ms0 == self.memberships@,
                new_ms@ + spec_memberships_without_chunks(ms0.skip(k as int), ids@)
                    =~= spec_memberships_without_chunks(ms0, ids@),
            decreases self.memberships@.len() - k,
        {
            let ghost rem = ms0.skip(k as int);
            proof {
                assert(rem[0] == ms0[k as int]);
                assert(rem.skip(1) =~= ms0.skip(k + 1));
            }
            let m: Membership = self.memberships[k];
            if !contains_id(ids, m.0) {
                new_ms.push(m);
            }
            proof {
                assert(new_ms@ + spec_memberships_without_chunks(ms0.skip(k + 1), ids@)
                    =~= spec_memberships_without_chunks(ms0, ids@));
            }
            k = k + 1;
        }
        proof {
            assert(ms0.skip(k as int) =~= Seq::<Membership>::empty());
            assert(new_ms@ =~= spec_memberships_without_chunks(ms0, ids@));
        }
        self.memberships = new_ms;
        proof {
            lemma_without_ids_props(cs0, ids@);
        }
    }

    /// Overwrites the mutable fields of the row with the given chunk's
    /// id, keeping the row's identity, dataset, tracking id, point id
    /// and creation time, and stamping `now` as the update time.  When
    /// `group_ids` is given, the chunk's memberships are replaced by
    /// them.  Fails with `NotFound`, leaving the store untouched, when
    /// no row in the dataset has that id.
    pub fn update_chunk_metadata_query(
        &mut self,
        meta: &ChunkMetadata,
        group_ids: &Option<Vec<u128>>,
        dataset_id: u128,
        now: i64,
    ) -> (r: Result<(u128, Option<u128>), ServiceError>)
        requires
            old(self).wf(),
        ensures
            final(self).wf(),
            final(self).groups == old(self).groups,
            r is Ok <==> exists|i: int|
                0 <= i < old(self).chunks_view().len()
                    && (#[trigger] old(self).chunks_view()[i]).id == meta.id
                    && old(self).chunks_view()[i].dataset_id == dataset_id,
            r is Err ==> r->Err_0 is NotFound && final(self).chunks == old(self).chunks
                && final(self).memberships == old(self).memberships,
            r is Ok ==> exists|i: int|
                {
                    &&& 0 <= i < old(self).chunks_view().len()
                    &&& (#[trigger] old(self).chunks_view()[i]).id == meta.id
                    &&& old(self).chunks_view()[i].dataset_id == dataset_id
                    &&& final(self).chunks_view() == old(self).chunks_view().update(
                        i,
                        spec_updated_row(old(self).chunks_view()[i], meta@, now),
                    )
                    &&& r->Ok_0 == (
                        old(self).chunks_view()[i].id,
                        old(self).chunks_view()[i].qdrant_point_id,
                    )
                    &&& final(self).memberships@ == (if group_ids is Some {
                        spec_memberships_without_chunks(old(self).memberships@, seq![meta.id])
                            + spec_new_memberships(meta.id, view_opt_vec(*group_ids))
                    } else {
                        old(self).memberships@
                    })
                },
    {
        let mut i: usize = 0;
        let n: usize = self.chunks.len();
        while i < n
            invariant
                old(self).wf(),
                self.chunks == old(self).chunks,
                self.memberships == old(self).memberships,
                self.groups == old(self).groups,
                n == self.chunks@.len(),
                i <= n,
                forall|k: int|
                    0 <= k < i ==> !((#[trigger] self.chunks_view()[k]).id == meta.id
                        && self.chunks_view()[k].dataset_id == dataset_id),
            decreases n - i,
        {
            if self.chunks[i].id == meta.id && self.chunks[i].dataset_id == dataset_id {
                let ghost old_row = self.chunks_view()[i as int];
                let row_id: u128 = self.chunks[i].id;
                let row_pid: Option<u128> = self.chunks[i].qdrant_point_id;
                let row_created: i64 = self.chunks[i].created_at;
                let row_tracking: Option<String> = clone_opt_string(&self.chunks[i].tracking_id);
                let fresh = clone_chunk_metadata(meta);
                let updated = ChunkMetadata {
                    id: row_id,
                    dataset_id,
                    qdrant_point_id: row_pid,
                    created_at: row_created,
                    tracking_id: row_tracking,
                    updated_at: now,
                    ..fresh
                };
                proof {
                    assert(updated@ =~= spec_updated_row(old_row, meta@, now));
                }
                self.chunks.set(i, updated);
                proof {
                    assert(self.chunks_view() =~= old(self).chunks_view().update(
                        i as int,
                        spec_updated_row(old_row, meta@, now),
                    ));
                    let cs = old(self).chunks_view();
                    let repl = spec_updated_row(old_row, meta@, now);
                    assert(old_row == cs[i as int]);
                    lemma_keys_unique_after_update(cs, i as int, repl);
                }
                match group_ids {
                    Some(_) => {
                        self.replace_chunk_memberships(row_id, group_ids);
                    },
                    None => {},
                }
                return Ok((row_id, row_pid));
            }
            i = i + 1;
        }
        Err(ServiceError::NotFound("chunk not found".to_owned()))
    }

    fn replace_chunk_memberships(&mut self, chunk_id: u128, group_ids: &Option<Vec<u128>>)
        ensures
            final(self).memberships@ == spec_memberships_without_chunks(
                old(self).memberships@,
                seq![chunk_id],
            ) + spec_new_memberships(chunk_id, view_opt_vec(*group_ids)),
            final(self).chunks == old(self).chunks,
            final(self).groups == old(self).groups,
    {
        let ghost ms0 = self.memberships@;
        let ghost ids: Seq<u128> = seq![chunk_id];
        let mut new_ms: Vec<Membership> = Vec::new();
        let mut k: usize = 0;
        proof {
            assert(ms0.skip(0) =~= ms0);
        }
        while k < self.memberships.len()
            invariant
                k <= self.memberships@.len(),
                ms0 == self.memberships@,
                ids == seq![chunk_id],
                new_ms@ + spec_memberships_without_chunks(ms0.skip(k as int), ids)
                    =~= spec_memberships_without_chunks(ms0, ids),
            decreases self.memberships@.len() - k,
        {
            let ghost rem = ms0.skip(k as int);
            proof {
                assert(rem[0] == ms0[k as int]);
                assert(rem.skip(1) =~= ms0.skip(k + 1));
            }
            let m: Membership = self.memberships[k];
            proof {
                assert(ids.len() == 1 && ids[0] == chunk_id);
            }
            if m.0 != chunk_id {
                proof {
                    assert(forall|t: int| 0 <= t < ids.len() ==> ids[t] != m.0);
                    assert(!ids.contains(m.0));
                }
                new_ms.push(m);
            } else {
                proof {
                    assert(ids.contains(m.0));
                }
            }
            proof {
                assert(new_ms@ + spec_memberships_without_chunks(ms0.skip(k + 1), ids)
                    =~= spec_memberships_without_chunks(ms0, ids));
            }
            k = k + 1;
        }
        proof {
            assert(ms0.skip(k as int) =~= Seq::<Membership>::empty());
            assert(new_ms@ =~= spec_memberships_without_chunks(ms0, ids));
        }
        self.memberships = new_ms;
        self.push_memberships(chunk_id, group_ids);
    }

    /// The point id of the chunk row with the given id: the chunk's own
    /// point, or the collision winner's for a collision row sharing it.
    /// Fails with `NotFound` when no row has the id or the row carries
    /// no point.
    pub fn get_qdrant_id_from_chunk_id_query(&self, chunk_id: u128) -> (r: Result<
        u128,
        ServiceError,
    >)
        ensures
            r is Ok <==> exists|i: int|
                0 <= i < self.chunks_view().len() && (#[trigger] self.chunks_view()[i]).id
                    == chunk_id && self.chunks_view()[i].qdrant_point_id is Some,
            r is Ok ==> exists|i: int|
                {
                    &&& 0 <= i < self.chunks_view().len()
                    &&& (#[trigger] self.chunks_view()[i]).id == chunk_id
                    &&& self.chunks_view()[i].qdrant_point_id == Some(r->Ok_0)
                },
            r is Err ==> r->Err_0 is NotFound,
    {
        let mut i: usize = 0;
        let n: usize = self.chunks.len();
        while i < n
            invariant
                n == self.chunks@.len(),
                i <= n,
                forall|k: int|
                    0 <= k < i ==> !((#[trigger] self.chunks_view()[k]).id == chunk_id
                        && self.chunks_view()[k].qdrant_point_id is Some),
            decreases n - i,
        {
            if self.chunks[i].id == chunk_id {
                match self.chunks[i].qdrant_point_id {
                    Some(pid) => {
                        proof {
                            assert(self.chunks_view()[i as int] == self.chunks@[i as int]@);
                            assert((#[trigger] self.chunks_view()[i as int]).id == chunk_id
                                && self.chunks_view()[i as int].qdrant_point_id == Some(pid));
                        }
                        return Ok(pid);
                    },
                    None => {},
                }
            }
            i = i + 1;
        }
        Err(ServiceError::NotFound("chunk not found".to_owned()))
    }

    /// The chunk rows whose point id is listed, in store order; used by
    /// collision detection to confirm the winner's row.
    pub fn get_chunk_metadatas_from_point_ids(&self, point_ids: &Vec<u128>) -> (r: Vec<
        ChunkMetadata,
    >)
        ensures
            r@.map_values(|m: ChunkMetadata| m@) == spec_rows_with_points(
                self.chunks_view(),
                point_ids@,
            ),
    {
        let ghost cs = self.chunks_view();
        let mut out: Vec<ChunkMetadata> = Vec::new();
        let mut i: usize = 0;
        proof {
            assert(cs.skip(0) =~= cs);
            assert(out@.map_values(|m: ChunkMetadata| m@) =~= Seq::<ChunkMetadataView>::empty());
        }
        while i < self.chunks.len()
            invariant
                i <= self.chunks@.len(),
                cs == self.chunks_view(),
                out@.map_values(|m: ChunkMetadata| m@) + spec_rows_with_points(
                    cs.skip(i as int),
                    point_ids@,
                ) =~= spec_rows_with_points(cs, point_ids@),
            decreases self.chunks@.len() - i,
        {
            let ghost rem = cs.skip(i as int);
            proof {
                assert(rem[0] == cs[i as int]);
                assert(rem.skip(1) =~= cs.skip(i + 1));
            }
            let keep: bool = match self.chunks[i].qdrant_point_id {
                Some(pid) => contains_id(point_ids, pid),
                None => false,
            };
            if keep {
                let row = clone_chunk_metadata(&self.chunks[i]);
                out.push(row);
                proof {
                    assert(out@.map_values(|m: ChunkMetadata| m@) =~= out@.drop_last().map_values(
                        |m: ChunkMetadata| m@,
                    ).push(cs[i as int]));
                }
            }
            proof {
                assert(out@.map_values(|m: ChunkMetadata| m@) + spec_rows_with_points(
                    cs.skip(i + 1),
                    point_ids@,
                ) =~= spec_rows_with_points(cs, point_ids@));
            }
            i = i + 1;
        }
        proof {
            assert(cs.skip(i as int) =~= Seq::<ChunkMetadataView>::empty());
            assert(out@.map_values(|m: ChunkMetadata| m@) =~= spec_rows_with_points(
                cs,
                point_ids@,
            ));
        }
        out
    }

    /// The group records whose id is listed, in store order; their tag
    /// sets are merged into new points' payloads.
    pub fn get_groups_from_group_ids_query(&self, group_ids: &Vec<u128>) -> (r: Vec<ChunkGroup>)
        ensures
            r@.map_values(|g: ChunkGroup| g@) == spec_groups_with_ids(
                self.groups_view(),
                group_ids@,
            ),
    {
        let ghost gs = self.groups_view();
        let mut out: Vec<ChunkGroup> = Vec::new();
        let mut i: usize = 0;
        proof {
            assert(gs.skip(0) =~= gs);
            assert(out@.map_values(|g: ChunkGroup| g@) =~= Seq::<ChunkGroupView>::empty());
        }
        while i < self.groups.len()
            invariant
                i <= self.groups@.len(),
                gs == self.groups_view(),
                out@.map_values(|g: ChunkGroup| g@) + spec_groups_with_ids(
                    gs.skip(i as int),
                    group_ids@,
                ) =~= spec_groups_with_ids(gs, group_ids@),
            decreases self.groups@.len() - i,
        {
            let ghost rem = gs.skip(i as int);
            proof {
                assert(rem[0] == gs[i as int]);
                assert(rem.skip(1) =~= gs.skip(i + 1));
            }
            if contains_id(group_ids, self.groups[i].id) {
                let g = clone_chunk_group(&self.groups[i]);
                out.push(g);
                proof {
                    assert(out@.map_values(|g: ChunkGroup| g@) =~= out@.drop_last().map_values(
                        |g: ChunkGroup| g@,
                    ).push(gs[i as int]));
                }
            }
            proof {
                assert(out@.map_values(|g: ChunkGroup| g@) + spec_groups_with_ids(
                    gs.skip(i + 1),
                    group_ids@,
                ) =~= spec_groups_with_ids(gs, group_ids@));
            }
            i = i + 1;
        }
        proof {
            assert(gs.skip(i as int) =~= Seq::<ChunkGroupView>::empty());
            assert(out@.map_values(|g: ChunkGroup| g@) =~= spec_groups_with_ids(gs, group_ids@));
        }
        out
    }

    /// The group with the given id, provided it belongs to the dataset;
    /// `NotFound` otherwise.
    pub fn dataset_owns_group(&self, group_id: u128, dataset_id: u128) -> (r: Result<
        ChunkGroup,
        ServiceError,
    >)
        ensures
            r is Ok <==> exists|i: int|
                0 <= i < self.groups_view().len() && (#[trigger] self.groups_view()[i]).id
                    == group_id && self.groups_view()[i].dataset_id == dataset_id,
            r is Ok ==> exists|i: int|
                {
                    &&& 0 <= i < self.groups_view().len()
                    &&& (#[trigger] self.groups_view()[i]).id == group_id
                    &&& self.groups_view()[i].dataset_id == dataset_id
                    &&& r->Ok_0@ == self.groups_view()[i]
                },
            r is Err ==> r->Err_0 is NotFound,
    {
        let mut i: usize = 0;
        let n: usize = self.groups.len();
        while i < n
            invariant
                n == self.groups@.len(),
                i <= n,
                forall|k: int|
                    0 <= k < i ==> !((#[trigger] self.groups_view()[k]).id == group_id
                        && self.groups_view()[k].dataset_id == dataset_id),
            decreases n - i,
        {
            if self.groups[i].id == group_id && self.groups[i].dataset_id == dataset_id {
                let g = clone_chunk_group(&self.groups[i]);
                proof {
                    assert(self.groups_view()[i as int] == self.groups@[i as int]@);
                    assert((#[trigger] self.groups_view()[i as int]).id == group_id
                        && self.groups_view()[i as int].dataset_id == dataset_id
                        && g@ == self.groups_view()[i as int]);
                }
                return Ok(g);
            }
            i = i + 1;
        }
        Err(ServiceError::NotFound("group not found".to_owned()))
    }

    /// The ids of the chunks that belong to a group, in membership
    /// order; the group re-tagging worker walks them.
    pub fn chunks_in_group(&self, group_id: u128) -> (r: Vec<u128>)
        ensures
            r@ == spec_chunks_of_group(self.memberships@, group_id),
    {
        let ghost ms = self.memberships@;
        let mut out: Vec<u128> = Vec::new();
        let mut i: usize = 0;
        proof {
            assert(ms.skip(0) =~= ms);
        }
        while i < self.memberships.len()
            invariant
                i <= self.memberships@.len(),
                ms == self.memberships@,
                out@ + spec_chunks_of_group(ms.skip(i as int), group_id) =~= spec_chunks_of_group(
                    ms,
                    group_id,
                ),
            decreases self.memberships@.len() - i,
        {
            let ghost rem = ms.skip(i as int);
            proof {
                assert(rem[0] == ms[i as int]);
                assert(rem.skip(1) =~= ms.skip(i + 1));
            }
            let m: Membership = self.memberships[i];
            if m.1 == group_id {
                out.push(m.0);
            }
            proof {
                assert(out@ + spec_chunks_of_group(ms.skip(i + 1), group_id)
                    =~= spec_chunks_of_group(ms, group_id));
            }
            i = i + 1;
        }
        proof {
            assert(ms.skip(i as int) =~= Seq::<Membership>::empty());
            assert(out@ =~= spec_chunks_of_group(ms, group_id));
        }
        out
    }
}

/// Whether `ids` lists `id`.
pub fn contains_id(ids: &Vec<u128>, id: u128) -> (r: bool)
    ensures
        r == ids@.contains(id),
{
    let mut i: usize = 0;
    while i < ids.len()
        invariant
            i <= ids@.len(),
            forall|k: int| 0 <= k < i ==> ids@[k] != id,
        decreases ids@.len() - i,
    {
        if ids[i] == id {
            return true;
        }
        i = i + 1;
    }
    false
}

/// The row an update writes: the new mutable fields under the old row's
/// identity, dataset, tracking id, point id and creation time.
pub open spec fn spec_updated_row(
    old_row: ChunkMetadataView,
    m: ChunkMetadataView,
    now: i64,
) -> ChunkMetadataView {
    ChunkMetadataView {
        id: old_row.id,
        dataset_id: old_row.dataset_id,
        qdrant_point_id: old_row.qdrant_point_id,
        created_at: old_row.created_at,
        tracking_id: old_row.tracking_id,
        updated_at: now,
        ..m
    }
}

/// The rows of `cs` whose point id is listed in `ids`, in order.
pub open spec fn spec_rows_with_points(cs: Seq<ChunkMetadataView>, ids: Seq<u128>) -> Seq<
    ChunkMetadataView,
>
    decreases cs.len(),
{
    if cs.len() == 0 {
        Seq::empty()
    } else {
        let rest = spec_rows_with_points(cs.skip(1), ids);
        if cs[0].qdrant_point_id is Some && ids.contains(cs[0].qdrant_point_id->0) {
            seq![cs[0]] + rest
        } else {
            rest
        }
    }
}

/// The groups of `gs` whose id is listed in `ids`, in order.
pub open spec fn spec_groups_with_ids(gs: Seq<ChunkGroupView>, ids: Seq<u128>) -> Seq<
    ChunkGroupView,
>
    decreases gs.len(),
{
    if gs.len() == 0 {
        Seq::empty()
    } else {
        let rest = spec_groups_with_ids(gs.skip(1), ids);
        if ids.contains(gs[0].id) {
            seq![gs[0]] + rest
        } else {
            rest
        }
    }
}

/// The chunk ids of the membership rows of one group, in order.
pub open spec fn spec_chunks_of_group(ms: Seq<Membership>, group_id: u128) -> Seq<u128>
    decreases ms.len(),
{
    if ms.len() == 0 {
        Seq::empty()
    } else {
        let rest = spec_chunks_of_group(ms.skip(1), group_id);
        if ms[0].1 == group_id {
            seq![ms[0].0] + rest
        } else {
            rest
        }
    }
}

/// The group ids of the membership rows of one chunk, in order.
pub open spec fn spec_groups_of_chunk(ms: Seq<Membership>, chunk_id: u128) -> Seq<u128>
    decreases ms.len(),
{
    if ms.len() == 0 {
        Seq::empty()
    } else {
        let rest = spec_groups_of_chunk(ms.skip(1), chunk_id);
        if ms[0].0 == chunk_id {
            seq![ms[0].1] + rest
        } else {
            rest
        }
    }
}

impl RelationalStore {
    /// The ids of the groups one chunk belongs to, in membership
    /// order; group re-tagging merges their tag sets.
    pub fn groups_of_chunk(&self, chunk_id: u128) -> (r: Vec<u128>)
        ensures
            r@ == spec_groups_of_chunk(self.memberships@, chunk_id),
    {
        let ghost ms = self.memberships@;
        let mut out: Vec<u128> = Vec::new();
        let mut i: usize = 0;
        proof {
            assert(ms.skip(0) =~= ms);
        }
        while i < self.memberships.len()
            invariant
                i <= self.memberships@.len(),
                ms == self.memberships@,
                out@ + spec_groups_of_chunk(ms.skip(i as int), chunk_id)
                    =~= spec_groups_of_chunk(ms, chunk_id),
            decreases self.memberships@.len() - i,
        {
            let ghost rem = ms.skip(i as int);
            proof {
                assert(rem[0] == ms[i as int]);
                assert(rem.skip(1) =~= ms.skip(i + 1));
            }
            let m: Membership = self.memberships[i];
            if m.0 == chunk_id {
                out.push(m.1);
            }
            proof {
                assert(out@ + spec_groups_of_chunk(ms.skip(i + 1), chunk_id)
                    =~= spec_groups_of_chunk(ms, chunk_id));
            }
            i = i + 1;
        }
        proof {
            assert(ms.skip(i as int) =~= Seq::<Membership>::empty());
            assert(out@ =~= spec_groups_of_chunk(ms, chunk_id));
        }
        out
    }
}

/// Model of the approximate-nearest-neighbour index.  It enforces the
/// dual-store invariant that matters to collision handling: exactly one
/// point per owned point id.
pub struct VectorStore {
    pub points: Vec<PointData>,
}

/// No two points share an id.
pub open spec fn spec_point_ids_unique(ps: Seq<PointDataView>) -> bool {
    forall|i: int, j: int|
        #![trigger ps[i], ps[j]]
        0 <= i < j < ps.len() ==> ps[i].point_id != ps[j].point_id
}

/// The ids of a batch of points.
pub open spec fn spec_point_ids(ps: Seq<PointDataView>) -> Seq<u128> {
    ps.map_values(|p: PointDataView| p.point_id)
}

/// The points of `ps` whose id is not listed in `ids`, in order.
pub open spec fn spec_points_without_ids(ps: Seq<PointDataView>, ids: Seq<u128>) -> Seq<
    PointDataView,
>
    decreases ps.len(),
{
    if ps.len() == 0 {
        Seq::empty()
    } else {
        let rest = spec_points_without_ids(ps.skip(1), ids);
        if ids.contains(ps[0].point_id) {
            rest
        } else {
            seq![ps[0]] + rest
        }
    }
}

proof fn lemma_points_without_props(ps: Seq<PointDataView>, ids: Seq<u128>)
    ensures
        forall|p: PointDataView|
            #[trigger] spec_points_without_ids(ps, ids).contains(p) ==> ps.contains(p)
                && !ids.contains(p.point_id),
        spec_point_ids_unique(ps) ==> spec_point_ids_unique(spec_points_without_ids(ps, ids)),
    decreases ps.len(),
{
    if ps.len() > 0 {
        let tail = ps.skip(1);
        lemma_points_without_props(tail, ids);
        let rest = spec_points_without_ids(tail, ids);
        let res = spec_points_without_ids(ps, ids);
        assert forall|p: PointDataView| #[trigger] res.contains(p) implies ps.contains(p)
            && !ids.contains(p.point_id) by {
            let k = choose|k: int| 0 <= k < res.len() && res[k] == p;
            if !ids.contains(ps[0].point_id) && k == 0 {
                assert(res[0] == ps[0]);
                assert(ps[0] == p);
            } else {
                if ids.contains(ps[0].point_id) {
                    assert(res[k] == rest[k]);
                    assert(rest.contains(p));
                } else {
                    assert(res[k] == rest[k - 1]);
                    assert(rest.contains(p));
                }
                let t = choose|t: int| 0 <= t < tail.len() && tail[t] == p;
                assert(ps[t + 1] == p);
            }
        }
        if spec_point_ids_unique(ps) {
            assert(spec_point_ids_unique(tail)) by {
                assert forall|i: int, j: int|
                    0 <= i < j < tail.len() implies (#[trigger] tail[i]).point_id
                    != (#[trigger] tail[j]).point_id by {
                    assert(ps[i + 1] == tail[i] && ps[j + 1] == tail[j]);
                }
            }
            if !ids.contains(ps[0].point_id) {
                assert forall|i: int, j: int|
                    0 <= i < j < res.len() implies (#[trigger] res[i]).point_id
                    != (#[trigger] res[j]).point_id by {
                    if i == 0 {
                        assert(res[0] == ps[0]);
                        assert(res[j] == rest[j - 1]);
                        assert(rest.contains(rest[j - 1]));
                        let k = choose|k: int| 0 <= k < tail.len() && tail[k] == res[j];
                        assert(ps[k + 1] == res[j]);
                        assert(ps[0].point_id != ps[k + 1].point_id);
                    } else {
                        assert(res[i] == rest[i - 1] && res[j] == rest[j - 1]);
                    }
                }
                assert(spec_point_ids_unique(res));
            } else {
                assert(res == rest);
            }
        }
    }
}

/// The point a partial update writes: the new sparse vector, the new
/// dense vector when one is given, and — only when chunk metadata is
/// given — a payload re-projected from it, with the given group ids (or
/// the previous ones) and the previous group tag set.  Without
/// metadata, the payload stays: the collision winner's payload is
/// preserved.
pub open spec fn spec_point_update(
    oldp: PointDataView,
    meta: Option<ChunkMetadataView>,
    dense: Option<Seq<i64>>,
    group_ids: Option<Seq<u128>>,
    dataset_id: u128,
    sparse: Seq<(u32, i64)>,
) -> PointDataView {
    PointDataView {
        point_id: oldp.point_id,
        dense: if dense is Some {
            dense->0
        } else {
            oldp.dense
        },
        sparse: sparse,
        payload: match meta {
            Some(m) => crate::models::spec_payload_of(
                m,
                if group_ids is Some {
                    group_ids
                } else {
                    Some(oldp.payload.group_ids)
                },
                Some(dataset_id),
                oldp.payload.group_tag_set,
            ),
            None => oldp.payload,
        },
    }
}

impl VectorStore {
    /// The mathematical contents of the index.
    pub open spec fn points_view(&self) -> Seq<PointDataView> {
        self.points@.map_values(|p: PointData| p@)
    }

    /// The index's integrity constraint: one point per id.
    pub open spec fn wf(&self) -> bool {
        spec_point_ids_unique(self.points_view())
    }

    /// Whether a point with this id exists.
    pub open spec fn spec_has_point(&self, id: u128) -> bool {
        exists|i: int|
            0 <= i < self.points_view().len() && (#[trigger] self.points_view()[i]).point_id == id
    }

    /// An empty index.
    pub fn new() -> (r: VectorStore)
        ensures
            r.wf(),
            r.points_view() == Seq::<PointDataView>::empty(),
    {
        let r = VectorStore { points: Vec::new() };
        proof {
            assert(r.points_view() =~= Seq::<PointDataView>::empty());
        }
        r
    }

    /// How many points the index holds.
    pub fn point_count(&self) -> (r: usize)
        ensures
            r == self.points_view().len(),
    {
        self.points.len()
    }

    /// Writes or replaces points: any point sharing an id with the
    /// batch is replaced, the others stay, and the batch is appended in
    /// order.
    pub fn bulk_upsert_qdrant_points_query(&mut self, points: Vec<PointData>)
        requires
            old(self).wf(),
            forall|k: int, l: int|
                0 <= k < l < points@.len() ==> points@[k].point_id != points@[l].point_id,
        ensures
            final(self).wf(),
            final(self).points_view() == spec_points_without_ids(
                old(self).points_view(),
                spec_point_ids(points@.map_values(|p: PointData| p@)),
            ) + points@.map_values(|p: PointData| p@),
    {
        let ghost batch = points@.map_values(|p: PointData| p@);
        let ghost ids_spec = spec_point_ids(batch);
        let mut ids: Vec<u128> = Vec::new();
        let mut k: usize = 0;
        while k < points.len()
            invariant
                k <= points@.len(),
                batch == points@.map_values(|p: PointData| p@),
                ids@ =~= spec_point_ids(batch).subrange(0, k as int),
            decreases points@.len() - k,
        {
            ids.push(points[k].point_id);
            assert(ids@ =~= spec_point_ids(batch).subrange(0, k + 1));
            k = k + 1;
        }
        proof {
            assert(ids@ =~= ids_spec);
        }
        let ghost ps0 = self.points_view();
        let mut kept: Vec<PointData> = Vec::new();
        let mut i: usize = 0;
        proof {
            assert(ps0.skip(0) =~= ps0);
            assert(kept@.map_values(|p: PointData| p@) =~= Seq::<PointDataView>::empty());
        }
        while i < self.points.len()
            invariant
                i <= self.points@.len(),
                ps0 == self.points_view(),
                ids@ == ids_spec,
                kept@.map_values(|p: PointData| p@) + spec_points_without_ids(
                    ps0.skip(i as int),
                    ids_spec,
                ) =~= spec_points_without_ids(ps0, ids_spec),
            decreases self.points@.len() - i,
        {
            let ghost rem = ps0.skip(i as int);
            proof {
                assert(rem[0] == ps0[i as int]);
                assert(rem.skip(1) =~= ps0.skip(i + 1));
            }
            if !contains_id(&ids, self.points[i].point_id) {
                let p = clone_point_data(&self.points[i]);
                kept.push(p);
                proof {
                    assert(kept@.map_values(|p: PointData| p@) =~= kept@.drop_last().map_values(
                        |p: PointData| p@,
                    ).push(ps0[i as int]));
                }
            }
            proof {
                assert(kept@.map_values(|p: PointData| p@) + spec_points_without_ids(
                    ps0.skip(i + 1),
                    ids_spec,
                ) =~= spec_points_without_ids(ps0, ids_spec));
            }
            i = i + 1;
        }
        proof {
            assert(ps0.skip(i as int) =~= Seq::<PointDataView>::empty());
            assert(kept@.map_values(|p: PointData| p@) =~= spec_points_without_ids(
                ps0,
                ids_spec,
            ));
        }
        self.points = kept;
        let ghost filtered = spec_points_without_ids(ps0, ids_spec);
        let mut rest = points;
        let mut t: usize = 0;
        proof {
            assert(batch.subrange(0, 0) =~= Seq::<PointDataView>::empty());
            assert(self.points_view() =~= filtered + batch.subrange(0, 0));
        }
        while rest.len() > 0
            invariant
                t + rest@.len() == batch.len(),
                t <= batch.len(),
                batch.len() <= usize::MAX,
                rest@.map_values(|p: PointData| p@) =~= batch.subrange(t as int, batch.len() as int),
                self.points_view() =~= filtered + batch.subrange(0, t as int),
            decreases rest@.len(),
        {
            let ghost restv = rest@;
            let p = rest.remove(0);
            proof {
                assert(restv.map_values(|q: PointData| q@)[0] == restv[0]@);
                assert(batch.subrange(t as int, batch.len() as int)[0] == batch[t as int]);
                assert(p@ == batch[t as int]);
            }
            let ghost prev = self.points_view();
            self.points.push(p);
            proof {
                assert(self.points_view() =~= prev.push(p@));
                assert(self.points_view() =~= filtered + batch.subrange(0, t + 1));
                assert forall|k: int| 0 <= k < rest@.len() implies (#[trigger] rest@[k])@
                    == batch.subrange(t + 1, batch.len() as int)[k] by {
                    assert(rest@[k] == restv[k + 1]);
                    assert(restv.map_values(|q: PointData| q@)[k + 1] == restv[k + 1]@);
                    assert(batch.subrange(t as int, batch.len() as int)[k + 1] == batch[t + 1 + k]);
                }
                assert(rest@.map_values(|q: PointData| q@) =~= batch.subrange(
                    t + 1,
                    batch.len() as int,
                ));
            }
            t = t + 1;
        }
        proof {
            assert(batch.subrange(0, batch.len() as int) =~= batch);
            assert(self.points_view() =~= filtered + batch);
            lemma_points_without_props(ps0, ids_spec);
            let nu = self.points_view();
            assert forall|a: int, b: int|
                0 <= a < b < nu.len() implies (#[trigger] nu[a]).point_id
                != (#[trigger] nu[b]).point_id by {
                let fl = filtered.len() as int;
                if b < fl {
                    assert(nu[a] == filtered[a] && nu[b] == filtered[b]);
                } else if a >= fl {
                    assert(nu[a] == batch[a - fl] && nu[b] == batch[b - fl]);
                    assert(points@[a - fl].point_id != points@[b - fl].point_id);
                    assert(points@[a - fl]@ == batch[a - fl] && points@[b - fl]@ == batch[b - fl]);
                } else {
                    assert(nu[a] == filtered[a] && nu[b] == batch[b - fl]);
                    assert(filtered.contains(filtered[a]));
                    assert(!ids_spec.contains(filtered[a].point_id));
                    assert(ids_spec[b - fl] == batch[b - fl].point_id);
                    assert(ids_spec.contains(batch[b - fl].point_id));
                }
            }
        }
    }

    /// Partial update of one point: replaces its sparse vector, its
    /// dense vector when one is given, and its payload only when chunk
    /// metadata is given (the collision path passes none to preserve
    /// the winner's payload).  Fails with `NotFound`, leaving the index
    /// untouched, when no point has the id.
    pub fn update_qdrant_point_query(
        &mut self,
        metadata: Option<&ChunkMetadata>,
        point_id: u128,
        dense: Option<DenseVector>,
        group_ids: Option<Vec<u128>>,
        dataset_id: u128,
        splade_vector: SparseVector,
    ) -> (r: Result<(), ServiceError>)
        requires
            old(self).wf(),
        ensures
            final(self).wf(),
            r is Ok <==> old(self).spec_has_point(point_id),
            r is Err ==> r->Err_0 is NotFound && final(self).points == old(self).points,
            r is Ok ==> exists|i: int|
                {
                    &&& 0 <= i < old(self).points_view().len()
                    &&& (#[trigger] old(self).points_view()[i]).point_id == point_id
                    &&& final(self).points_view() == old(self).points_view().update(
                        i,
                        spec_point_update(
                            old(self).points_view()[i],
                            match metadata {
                                Some(m) => Some(m@),
                                None => None,
                            },
                            view_opt_vec(dense),
                            view_opt_vec(group_ids),
                            dataset_id,
                            splade_vector@,
                        ),
                    )
                },
    {
        let ghost metav: Option<ChunkMetadataView> = match metadata {
            Some(m) => Some(m@),
            None => None,
        };
        let mut i: usize = 0;
        let n: usize = self.points.len();
        while i < n
            invariant
                old(self).wf(),
                self.points == old(self).points,
                n == self.points@.len(),
                i <= n,
                metav == (match metadata {
                    Some(m) => Some(m@),
                    None => None,
                }),
                forall|k: int|
                    0 <= k < i ==> (#[trigger] self.points_view()[k]).point_id != point_id,
            decreases n - i,
        {
            if self.points[i].point_id == point_id {
                let ghost oldp = self.points_view()[i as int];
                let new_dense: DenseVector = match dense {
                    Some(d) => d,
                    None => crate::dup::copy_vec(&self.points[i].dense),
                };
                let new_payload: QdrantPayload = match metadata {
                    Some(m) => {
                        let gids: Option<Vec<u128>> = match group_ids {
                            Some(g) => Some(g),
                            None => Some(crate::dup::copy_vec(&self.points[i].payload.group_ids)),
                        };
                        crate::models::QdrantPayload::new(
                            m,
                            gids,
                            Some(dataset_id),
                            crate::dup::clone_tag_set(&self.points[i].payload.group_tag_set),
                        )
                    },
                    None => crate::dup::clone_qdrant_payload(&self.points[i].payload),
                };
                let updated = PointData {
                    point_id,
                    dense: new_dense,
                    sparse: splade_vector,
                    payload: new_payload,
                };
                proof {
                    let target = spec_point_update(
                        oldp,
                        metav,
                        view_opt_vec(dense),
                        view_opt_vec(group_ids),
                        dataset_id,
                        splade_vector@,
                    );
                    if metav is Some {
                        assert(updated.payload@ =~= target.payload);
                    }
                    assert(updated@ =~= target);
                }
                self.points.set(i, updated);
                proof {
                    let target = spec_point_update(
                        oldp,
                        metav,
                        view_opt_vec(dense),
                        view_opt_vec(group_ids),
                        dataset_id,
                        splade_vector@,
                    );
                    assert(self.points_view() =~= old(self).points_view().update(
                        i as int,
                        target,
                    ));
                    let ps = old(self).points_view();
                    let nu = self.points_view();
                    assert forall|a: int, b: int|
                        0 <= a < b < nu.len() implies (#[trigger] nu[a]).point_id
                        != (#[trigger] nu[b]).point_id by {
                        assert(ps[a].point_id != ps[b].point_id);
                        assert(nu[a].point_id == ps[a].point_id);
                        assert(nu[b].point_id == ps[b].point_id);
                    }
                }
                return Ok(());
            }
            i = i + 1;
        }
        Err(ServiceError::NotFound("point not found".to_owned()))
    }

    /// Replaces one point's merged group tag set, leaving everything
    /// else of the point — vectors and the rest of the payload —
    /// untouched.  Fails with `NotFound`, leaving the index untouched,
    /// when no point has the id.
    pub fn update_point_group_tags(
        &mut self,
        point_id: u128,
        tags: Option<Vec<Option<String>>>,
    ) -> (r: Result<(), ServiceError>)
        requires
            old(self).wf(),
        ensures
            final(self).wf(),
            r is Ok <==> old(self).spec_has_point(point_id),
            r is Err ==> r->Err_0 is NotFound && final(self).points == old(self).points,
            r is Ok ==> exists|i: int|
                {
                    &&& 0 <= i < old(self).points_view().len()
                    &&& (#[trigger] old(self).points_view()[i]).point_id == point_id
                    &&& final(self).points_view() == old(self).points_view().update(
                        i,
                        spec_point_with_tags(
                            old(self).points_view()[i],
                            crate::models::view_tag_list(tags),
                        ),
                    )
                },
    {
        let mut i: usize = 0;
        let n: usize = self.points.len();
        while i < n
            invariant
                old(self).wf(),
                self.points == old(self).points,
                n == self.points@.len(),
                i <= n,
                forall|k: int|
                    0 <= k < i ==> (#[trigger] self.points_view()[k]).point_id != point_id,
            decreases n - i,
        {
            if self.points[i].point_id == point_id {
                let ghost oldp = self.points_view()[i as int];
                let ghost tagsv = crate::models::view_tag_list(tags);
                let dense = crate::dup::copy_vec(&self.points[i].dense);
                let sparse = crate::dup::copy_vec(&self.points[i].sparse);
                let old_payload = crate::dup::clone_qdrant_payload(&self.points[i].payload);
                let payload = QdrantPayload { group_tag_set: tags, ..old_payload };
                let updated = PointData { point_id, dense, sparse, payload };
                proof {
                    assert(updated@ =~= spec_point_with_tags(oldp, tagsv));
                }
                self.points.set(i, updated);
                proof {
                    assert(self.points_view() =~= old(self).points_view().update(
                        i as int,
                        spec_point_with_tags(oldp, tagsv),
                    ));
                    let ps = old(self).points_view();
                    let nu = self.points_view();
                    assert forall|a: int, b: int|
                        0 <= a < b < nu.len() implies (#[trigger] nu[a]).point_id
                        != (#[trigger] nu[b]).point_id by {
                        assert(ps[a].point_id != ps[b].point_id);
                        assert(nu[a].point_id == ps[a].point_id);
                        assert(nu[b].point_id == ps[b].point_id);
                    }
                }
                return Ok(());
            }
            i = i + 1;
        }
        Err(ServiceError::NotFound("point not found".to_owned()))
    }

    /// Removes the points whose id is listed.
    pub fn delete_points(&mut self, ids: &Vec<u128>)
        requires
            old(self).wf(),
        ensures
            final(self).wf(),
            final(self).points_view() == spec_points_without_ids(old(self).points_view(), ids@),
    {
        let ghost ps0 = self.points_view();
        let mut kept: Vec<PointData> = Vec::new();
        let mut i: usize = 0;
        proof {
            assert(ps0.skip(0) =~= ps0);
            assert(kept@.map_values(|p: PointData| p@) =~= Seq::<PointDataView>::empty());
        }
        while i < self.points.len()
            invariant
                i <= self.points@.len(),
                ps0 == self.points_view(),
                kept@.map_values(|p: PointData| p@) + spec_points_without_ids(
                    ps0.skip(i as int),
                    ids@,
                ) =~= spec_points_without_ids(ps0, ids@),
            decreases self.points@.len() - i,
        {
            let ghost rem = ps0.skip(i as int);
            proof {
                assert(rem[0] == ps0[i as int]);
                assert(rem.skip(1) =~= ps0.skip(i + 1));
            }
            if !contains_id(ids, self.points[i].point_id) {
                let p = clone_point_data(&self.points[i]);
                kept.push(p);
                proof {
                    assert(kept@.map_values(|p: PointData| p@) =~= kept@.drop_last().map_values(
                        |p: PointData| p@,
                    ).push(ps0[i as int]));
                }
            }
            proof {
                assert(kept@.map_values(|p: PointData| p@) + spec_points_without_ids(
                    ps0.skip(i + 1),
                    ids@,
                ) =~= spec_points_without_ids(ps0, ids@));
            }
            i = i + 1;
        }
        proof {
            assert(ps0.skip(i as int) =~= Seq::<PointDataView>::empty());
            assert(kept@.map_values(|p: PointData| p@) =~= spec_points_without_ids(ps0, ids@));
        }
        self.points = kept;
        proof {
            lemma_points_without_props(ps0, ids@);
        }
    }
}

/// The first row of `cs` sharing `m`'s tracking key, or -1.
pub open spec fn spec_conflict_idx(cs: Seq<ChunkMetadataView>, m: ChunkMetadataView) -> int
    decreases cs.len(),
{
    if cs.len() == 0 {
        -1
    } else if same_tracking_key(cs[0], m) {
        0int
    } else {
        let r = spec_conflict_idx(cs.skip(1), m);
        if r == -1 {
            -1
        } else {
            r + 1
        }
    }
}

/// The finder agrees with the conflict predicate.
pub proof fn lemma_conflict_idx_props(cs: Seq<ChunkMetadataView>, m: ChunkMetadataView)
    ensures
        spec_conflict_idx(cs, m) == -1 <==> !spec_tracking_conflict(cs, m),
        spec_conflict_idx(cs, m) != -1 ==> 0 <= spec_conflict_idx(cs, m) < cs.len()
            && same_tracking_key(cs[spec_conflict_idx(cs, m)], m),
    decreases cs.len(),
{
    if cs.len() > 0 {
        let tail = cs.skip(1);
        lemma_conflict_idx_props(tail, m);
        if !same_tracking_key(cs[0], m) {
            assert forall|i: int|
                0 <= i < tail.len() implies (same_tracking_key(#[trigger] tail[i], m)
                <==> same_tracking_key(cs[i + 1], m)) by {
                assert(tail[i] == cs[i + 1]);
            }
            if spec_tracking_conflict(cs, m) {
                let w = choose|i: int|
                    0 <= i < cs.len() && same_tracking_key(#[trigger] cs[i], m);
                assert(w > 0);
                assert(tail[w - 1] == cs[w]);
                assert(spec_tracking_conflict(tail, m));
            }
            if spec_tracking_conflict(tail, m) {
                let w = choose|i: int|
                    0 <= i < tail.len() && same_tracking_key(#[trigger] tail[i], m);
                assert(cs[w + 1] == tail[w]);
                assert(spec_tracking_conflict(cs, m));
            }
            if spec_conflict_idx(tail, m) != -1 {
                assert(cs[spec_conflict_idx(tail, m) + 1] == tail[spec_conflict_idx(tail, m)]);
            }
        }
    }
}

/// With unique tracking keys, any conflicting index is the finder's.
pub proof fn lemma_conflict_idx_unique(cs: Seq<ChunkMetadataView>, m: ChunkMetadataView, i: int)
    requires
        spec_tracking_keys_unique(cs),
        0 <= i < cs.len(),
        same_tracking_key(cs[i], m),
    ensures
        spec_conflict_idx(cs, m) == i,
    decreases cs.len(),
{
    if same_tracking_key(cs[0], m) {
        if i != 0 {
            assert(same_tracking_key(cs[0], cs[i])) by {
                assert(cs[0].dataset_id == m.dataset_id && cs[i].dataset_id == m.dataset_id);
                assert(cs[0].tracking_id->0 == m.tracking_id->0);
                assert(cs[i].tracking_id->0 == m.tracking_id->0);
            }
            assert(false);
        }
    } else {
        let tail = cs.skip(1);
        assert(i > 0);
        assert(tail[i - 1] == cs[i]);
        assert(spec_tracking_keys_unique(tail)) by {
            assert forall|a: int, b: int|
                0 <= a < b < tail.len() implies !same_tracking_key(
                #[trigger] tail[a],
                #[trigger] tail[b],
            ) by {
                assert(tail[a] == cs[a + 1] && tail[b] == cs[b + 1]);
            }
        }
        lemma_conflict_idx_unique(tail, m, i - 1);
    }
}

/// The first point of `ps` with the given id, or -1.
pub open spec fn spec_point_idx(ps: Seq<PointDataView>, id: u128) -> int
    decreases ps.len(),
{
    if ps.len() == 0 {
        -1
    } else if ps[0].point_id == id {
        0int
    } else {
        let r = spec_point_idx(ps.skip(1), id);
        if r == -1 {
            -1
        } else {
            r + 1
        }
    }
}

/// The finder agrees with point existence.
pub proof fn lemma_point_idx_props(ps: Seq<PointDataView>, id: u128)
    ensures
        spec_point_idx(ps, id) == -1 <==> !(exists|i: int|
            0 <= i < ps.len() && (#[trigger] ps[i]).point_id == id),
        spec_point_idx(ps, id) != -1 ==> 0 <= spec_point_idx(ps, id) < ps.len()
            && ps[spec_point_idx(ps, id)].point_id == id,
    decreases ps.len(),
{
    if ps.len() > 0 {
        let tail = ps.skip(1);
        lemma_point_idx_props(tail, id);
        if ps[0].point_id != id {
            if exists|i: int| 0 <= i < ps.len() && (#[trigger] ps[i]).point_id == id {
                let w = choose|i: int| 0 <= i < ps.len() && (#[trigger] ps[i]).point_id == id;
                assert(w > 0);
                assert(tail[w - 1] == ps[w]);
            }
            if exists|i: int| 0 <= i < tail.len() && (#[trigger] tail[i]).point_id == id {
                let w = choose|i: int| 0 <= i < tail.len() && (#[trigger] tail[i]).point_id == id;
                assert(ps[w + 1] == tail[w]);
            }
            if spec_point_idx(tail, id) != -1 {
                assert(ps[spec_point_idx(tail, id) + 1] == tail[spec_point_idx(tail, id)]);
            }
        }
    }
}

/// With unique point ids, any matching index is the finder's.
pub proof fn lemma_point_idx_unique(ps: Seq<PointDataView>, id: u128, i: int)
    requires
        spec_point_ids_unique(ps),
        0 <= i < ps.len(),
        ps[i].point_id == id,
    ensures
        spec_point_idx(ps, id) == i,
    decreases ps.len(),
{
    if ps[0].point_id == id {
        if i != 0 {
            assert(ps[0].point_id != ps[i].point_id);
            assert(false);
        }
    } else {
        let tail = ps.skip(1);
        assert(i > 0);
        assert(tail[i - 1] == ps[i]);
        assert(spec_point_ids_unique(tail)) by {
            assert forall|a: int, b: int|
                0 <= a < b < tail.len() implies (#[trigger] tail[a]).point_id
                != (#[trigger] tail[b]).point_id by {
                assert(tail[a] == ps[a + 1] && tail[b] == ps[b + 1]);
            }
        }
        lemma_point_idx_unique(tail, id, i - 1);
    }
}

/// The first row of `cs` with the given chunk id, or -1.
pub open spec fn spec_row_idx(cs: Seq<ChunkMetadataView>, id: u128) -> int
    decreases cs.len(),
{
    if cs.len() == 0 {
        -1
    } else if cs[0].id == id {
        0int
    } else {
        let r = spec_row_idx(cs.skip(1), id);
        if r == -1 {
            -1
        } else {
            r + 1
        }
    }
}

/// The finder agrees with row existence.
pub proof fn lemma_row_idx_props(cs: Seq<ChunkMetadataView>, id: u128)
    ensures
        spec_row_idx(cs, id) == -1 <==> !(exists|i: int|
            0 <= i < cs.len() && (#[trigger] cs[i]).id == id),
        spec_row_idx(cs, id) != -1 ==> 0 <= spec_row_idx(cs, id) < cs.len()
            && cs[spec_row_idx(cs, id)].id == id,
    decreases cs.len(),
{
    if cs.len() > 0 {
        let tail = cs.skip(1);
        lemma_row_idx_props(tail, id);
        if cs[0].id != id {
            if exists|i: int| 0 <= i < cs.len() && (#[trigger] cs[i]).id == id {
                let w = choose|i: int| 0 <= i < cs.len() && (#[trigger] cs[i]).id == id;
                assert(w > 0);
                assert(tail[w - 1] == cs[w]);
            }
            if exists|i: int| 0 <= i < tail.len() && (#[trigger] tail[i]).id == id {
                let w = choose|i: int| 0 <= i < tail.len() && (#[trigger] tail[i]).id == id;
                assert(cs[w + 1] == tail[w]);
            }
            if spec_row_idx(tail, id) != -1 {
                assert(cs[spec_row_idx(tail, id) + 1] == tail[spec_row_idx(tail, id)]);
            }
        }
    }
}

/// With unique chunk ids, any matching index is the finder's.
pub proof fn lemma_row_idx_unique(cs: Seq<ChunkMetadataView>, id: u128, i: int)
    requires
        spec_chunk_ids_unique(cs),
        0 <= i < cs.len(),
        cs[i].id == id,
    ensures
        spec_row_idx(cs, id) == i,
    decreases cs.len(),
{
    if cs[0].id == id {
        if i != 0 {
            assert(cs[0].id != cs[i].id);
            assert(false);
        }
    } else {
        let tail = cs.skip(1);
        assert(i > 0);
        assert(tail[i - 1] == cs[i]);
        assert(spec_chunk_ids_unique(tail)) by {
            assert forall|a: int, b: int|
                0 <= a < b < tail.len() implies (#[trigger] tail[a]).id
                != (#[trigger] tail[b]).id by {
                assert(tail[a] == cs[a + 1] && tail[b] == cs[b + 1]);
            }
        }
        lemma_row_idx_unique(tail, id, i - 1);
    }
}

/// The point with its merged group tag set replaced and everything
/// else kept.
pub open spec fn spec_point_with_tags(
    oldp: PointDataView,
    tags: Option<Seq<Option<Seq<char>>>>,
) -> PointDataView {
    PointDataView {
        payload: crate::models::QdrantPayloadView { group_tag_set: tags, ..oldp.payload },
        ..oldp
    }
}

/// Clones an index record, keeping its value.
pub fn clone_point_data(p: &PointData) -> (r: PointData)
    ensures
        r@ == p@,
{
    let r = PointData {
        point_id: p.point_id,
        dense: crate::dup::copy_vec(&p.dense),
        sparse: crate::dup::clone_sparse_vector(&p.sparse),
        payload: crate::dup::clone_qdrant_payload(&p.payload),
    };
    proof {
        assert(r@ =~= p@);
    }
    r
}

} // verus!
