use vstd::prelude::*;
use crate::config::ServerDatasetConfiguration;
use crate::errors::ServiceError;
use crate::events::{Event, EventType};
use crate::models::{ChunkMetadataView, DeleteMessage, PointDataView};
use crate::numfmt::{spec_u64_string, u64_to_string};
use crate::store::{
    spec_memberships_without_chunks, spec_points_without_ids, spec_without_ids, Membership,
    RelationalStore, VectorStore,
};

verus! {

/// Plans the soft deletion of a dataset: a locked dataset refuses
/// deletion; otherwise the job that clears the dataset's chunks and
/// then drops its dataset-scoped rows is built, at attempt zero.
pub fn soft_delete_dataset_by_id_query(
    dataset_id: u128,
    config: ServerDatasetConfiguration,
) -> (r: Result<DeleteMessage, ServiceError>)
    ensures
        r is Err <==> config.locked,
        r is Err ==> r->Err_0 is BadRequest,
        r is Ok ==> r->Ok_0 == (DeleteMessage {
            dataset_id,
            server_config: config,
            attempt_number: 0,
            empty_dataset: false,
        }),
{
    if config.locked {
        return Err(ServiceError::BadRequest("Cannot delete a locked dataset".to_owned()));
    }
    Ok(DeleteMessage { dataset_id, server_config: config, attempt_number: 0, empty_dataset: false })
}

/// Plans clearing a dataset: as deletion, but the dataset itself stays
/// and only its chunks are removed.
pub fn clear_dataset_by_dataset_id_query(
    dataset_id: u128,
    config: ServerDatasetConfiguration,
) -> (r: Result<DeleteMessage, ServiceError>)
    ensures
        r is Err <==> config.locked,
        r is Err ==> r->Err_0 is BadRequest,
        r is Ok ==> r->Ok_0 == (DeleteMessage {
            dataset_id,
            server_config: config,
            attempt_number: 0,
            empty_dataset: true,
        }),
{
    if config.locked {
        return Err(ServiceError::BadRequest("Cannot delete a locked dataset".to_owned()));
    }
    Ok(DeleteMessage { dataset_id, server_config: config, attempt_number: 0, empty_dataset: true })
}

/// The (chunk id, point id) references of a dataset's rows, in store
/// order.
pub open spec fn spec_dataset_rows(cs: Seq<ChunkMetadataView>, dataset_id: u128) -> Seq<
    (u128, Option<u128>),
>
    decreases cs.len(),
{
    if cs.len() == 0 {
        Seq::empty()
    } else {
        let rest = spec_dataset_rows(cs.skip(1), dataset_id);
        if cs[0].dataset_id == dataset_id {
            seq![(cs[0].id, cs[0].qdrant_point_id)] + rest
        } else {
            rest
        }
    }
}

/// The chunk ids of the referenced rows.
pub open spec fn spec_ref_ids(refs: Seq<(u128, Option<u128>)>) -> Seq<u128> {
    refs.map_values(|p: (u128, Option<u128>)| p.0)
}

/// The point ids the referenced rows own.
pub open spec fn spec_ref_point_ids(refs: Seq<(u128, Option<u128>)>) -> Seq<u128>
    decreases refs.len(),
{
    if refs.len() == 0 {
        Seq::empty()
    } else {
        let rest = spec_ref_point_ids(refs.skip(1));
        if refs[0].1 is Some {
            seq![refs[0].1->0] + rest
        } else {
            rest
        }
    }
}

/// The rows that survive clearing a dataset: those of the other
/// datasets, in order.
pub open spec fn spec_rows_not_of_dataset(cs: Seq<ChunkMetadataView>, dataset_id: u128) -> Seq<
    ChunkMetadataView,
>
    decreases cs.len(),
{
    if cs.len() == 0 {
        Seq::empty()
    } else {
        let rest = spec_rows_not_of_dataset(cs.skip(1), dataset_id);
        if cs[0].dataset_id == dataset_id {
            rest
        } else {
            seq![cs[0]] + rest
        }
    }
}

/// The sizes of the deletion batches for `count` chunks in pages of
/// `batch`: full pages, then the remainder.
pub open spec fn spec_batch_sizes(count: int, batch: int) -> Seq<int>
    decreases count,
    when batch >= 1
{
    if count <= 0 {
        Seq::empty()
    } else if count <= batch {
        seq![count]
    } else {
        seq![batch] + spec_batch_sizes(count - batch, batch)
    }
}

/// The text of one per-batch deletion event.
pub open spec fn spec_deleted_message(n: int) -> Seq<char> {
    "Deleted "@ + spec_u64_string(n as u64) + " chunks"@
}

pub proof fn lemma_contains_concat<T>(a: Seq<T>, b: Seq<T>, x: T)
    ensures
        (a + b).contains(x) <==> a.contains(x) || b.contains(x),
{
    if (a + b).contains(x) {
        let i = choose|i: int| 0 <= i < (a + b).len() && (a + b)[i] == x;
        if i < a.len() {
            assert(a[i] == x);
        } else {
            assert(b[i - a.len()] == x);
        }
    }
    if a.contains(x) {
        let i = choose|i: int| 0 <= i < a.len() && a[i] == x;
        assert((a + b)[i] == x);
    }
    if b.contains(x) {
        let i = choose|i: int| 0 <= i < b.len() && b[i] == x;
        assert((a + b)[a.len() + i] == x);
    }
}

pub proof fn lemma_without_ids_compose(cs: Seq<ChunkMetadataView>, a: Seq<u128>, b: Seq<u128>)
    ensures
        spec_without_ids(spec_without_ids(cs, a), b) == spec_without_ids(cs, a + b),
    decreases cs.len(),
{
    if cs.len() == 0 {
        assert(spec_without_ids(cs, a) =~= Seq::<ChunkMetadataView>::empty());
        assert(spec_without_ids(spec_without_ids(cs, a), b) =~= spec_without_ids(cs, a + b));
    } else {
        let tail = cs.skip(1);
        lemma_without_ids_compose(tail, a, b);
        lemma_contains_concat(a, b, cs[0].id);
        let rest_a = spec_without_ids(tail, a);
        if a.contains(cs[0].id) {
            assert(spec_without_ids(cs, a) == rest_a);
            assert(spec_without_ids(cs, a + b) == spec_without_ids(tail, a + b));
        } else {
            let x = spec_without_ids(cs, a);
            assert(x == seq![cs[0]] + rest_a);
            assert(x[0] == cs[0]);
            assert(x.skip(1) =~= rest_a);
            if b.contains(cs[0].id) {
                assert(spec_without_ids(x, b) == spec_without_ids(rest_a, b));
                assert(spec_without_ids(cs, a + b) == spec_without_ids(tail, a + b));
            } else {
                assert(spec_without_ids(x, b) == seq![cs[0]] + spec_without_ids(rest_a, b));
                assert(spec_without_ids(cs, a + b) == seq![cs[0]] + spec_without_ids(
                    tail,
                    a + b,
                ));
            }
        }
    }
}

proof fn lemma_memberships_without_compose(ms: Seq<Membership>, a: Seq<u128>, b: Seq<u128>)
    ensures
        spec_memberships_without_chunks(spec_memberships_without_chunks(ms, a), b)
            == spec_memberships_without_chunks(ms, a + b),
    decreases ms.len(),
{
    if ms.len() == 0 {
        assert(spec_memberships_without_chunks(ms, a) =~= Seq::<Membership>::empty());
        assert(spec_memberships_without_chunks(spec_memberships_without_chunks(ms, a), b)
            =~= spec_memberships_without_chunks(ms, a + b));
    } else {
        let tail = ms.skip(1);
        lemma_memberships_without_compose(tail, a, b);
        lemma_contains_concat(a, b, ms[0].0);
        let rest_a = spec_memberships_without_chunks(tail, a);
        if a.contains(ms[0].0) {
            assert(spec_memberships_without_chunks(ms, a) == rest_a);
            assert(spec_memberships_without_chunks(ms, a + b) == spec_memberships_without_chunks(
                tail,
                a + b,
            ));
        } else {
            let x = spec_memberships_without_chunks(ms, a);
            assert(x == seq![ms[0]] + rest_a);
            assert(x[0] == ms[0]);
            assert(x.skip(1) =~= rest_a);
            if b.contains(ms[0].0) {
                assert(spec_memberships_without_chunks(x, b) == spec_memberships_without_chunks(
                    rest_a,
                    b,
                ));
                assert(spec_memberships_without_chunks(ms, a + b)
                    == spec_memberships_without_chunks(tail, a + b));
            } else {
                assert(spec_memberships_without_chunks(x, b) == seq![ms[0]]
                    + spec_memberships_without_chunks(rest_a, b));
                assert(spec_memberships_without_chunks(ms, a + b) == seq![ms[0]]
                    + spec_memberships_without_chunks(tail, a + b));
            }
        }
    }
}

proof fn lemma_points_without_compose(ps: Seq<PointDataView>, a: Seq<u128>, b: Seq<u128>)
    ensures
        spec_points_without_ids(spec_points_without_ids(ps, a), b) == spec_points_without_ids(
            ps,
            a + b,
        ),
    decreases ps.len(),
{
    if ps.len() == 0 {
        assert(spec_points_without_ids(ps, a) =~= Seq::<PointDataView>::empty());
        assert(spec_points_without_ids(spec_points_without_ids(ps, a), b)
            =~= spec_points_without_ids(ps, a + b));
    } else {
        let tail = ps.skip(1);
        lemma_points_without_compose(tail, a, b);
        lemma_contains_concat(a, b, ps[0].point_id);
        let rest_a = spec_points_without_ids(tail, a);
        if a.contains(ps[0].point_id) {
            assert(spec_points_without_ids(ps, a) == rest_a);
            assert(spec_points_without_ids(ps, a + b) == spec_points_without_ids(tail, a + b));
        } else {
            let x = spec_points_without_ids(ps, a);
            assert(x == seq![ps[0]] + rest_a);
            assert(x[0] == ps[0]);
            assert(x.skip(1) =~= rest_a);
            if b.contains(ps[0].point_id) {
                assert(spec_points_without_ids(x, b) == spec_points_without_ids(rest_a, b));
                assert(spec_points_without_ids(ps, a + b) == spec_points_without_ids(
                    tail,
                    a + b,
                ));
            } else {
                assert(spec_points_without_ids(x, b) == seq![ps[0]] + spec_points_without_ids(
                    rest_a,
                    b,
                ));
                assert(spec_points_without_ids(ps, a + b) == seq![ps[0]]
                    + spec_points_without_ids(tail, a + b));
            }
        }
    }
}

proof fn lemma_delete_all(cs: Seq<ChunkMetadataView>, ids: Seq<u128>, dataset_id: u128)
    requires
        forall|i: int|
            0 <= i < cs.len() ==> ((#[trigger] cs[i]).dataset_id == dataset_id <==> ids.contains(
                cs[i].id,
            )),
    ensures
        spec_without_ids(cs, ids) == spec_rows_not_of_dataset(cs, dataset_id),
    decreases cs.len(),
{
    if cs.len() > 0 {
        let tail = cs.skip(1);
        assert forall|i: int|
            0 <= i < tail.len() implies ((#[trigger] tail[i]).dataset_id == dataset_id
            <==> ids.contains(tail[i].id)) by {
            assert(tail[i] == cs[i + 1]);
        }
        lemma_delete_all(tail, ids, dataset_id);
        assert(cs[0].dataset_id == dataset_id <==> ids.contains(cs[0].id));
    }
}

impl RelationalStore {
    /// The (chunk id, point id) references of every row of the
    /// dataset, in store order; the delete pipeline pages over them.
    pub fn dataset_chunk_refs(&self, dataset_id: u128) -> (r: Vec<(u128, Option<u128>)>)
        ensures
            r@ == spec_dataset_rows(self.chunks_view(), dataset_id),
    {
        let ghost cs = self.chunks_view();
        let mut out: Vec<(u128, Option<u128>)> = Vec::new();
        let mut i: usize = 0;
        proof {
            assert(cs.skip(0) =~= cs);
        }
        while i < self.chunks.len()
            invariant
                i <= self.chunks@.len(),
                cs == self.chunks_view(),
                out@ + spec_dataset_rows(cs.skip(i as int), dataset_id) =~= spec_dataset_rows(
                    cs,
                    dataset_id,
                ),
            decreases self.chunks@.len() - i,
        {
            let ghost rem = cs.skip(i as int);
            proof {
                assert(rem[0] == cs[i as int]);
                assert(rem.skip(1) =~= cs.skip(i + 1));
            }
            if self.chunks[i].dataset_id == dataset_id {
                out.push((self.chunks[i].id, self.chunks[i].qdrant_point_id));
            }
            proof {
                assert(out@ + spec_dataset_rows(cs.skip(i + 1), dataset_id)
                    =~= spec_dataset_rows(cs, dataset_id));
            }
            i = i + 1;
        }
        proof {
            assert(cs.skip(i as int) =~= Seq::<ChunkMetadataView>::empty());
            assert(out@ =~= spec_dataset_rows(cs, dataset_id));
        }
        out
    }
}

/// The text of one per-batch deletion event.
fn deleted_message(n: u64) -> (r: String)
    ensures
        r@ == spec_deleted_message(n as int),
{
    let s: String = u64_to_string(n);
    let mut out = "Deleted ".to_owned();
    out.append(s.as_str());
    out.append(" chunks");
    out
}

/// Clears every chunk of a dataset from both stores, paging in batches
/// of `batch_size`: each batch's rows (with their memberships) and the
/// points they own are deleted, and one per-batch deletion event is
/// recorded.  Afterwards only the other datasets' rows remain, and the
/// events record the page sizes in order.
pub fn delete_chunks_in_dataset(
    dataset_id: u128,
    rel: &mut RelationalStore,
    index: &mut VectorStore,
    events: &mut Vec<Event>,
    batch_size: usize,
) -> (r: Result<(), ServiceError>)
    requires
        old(rel).wf(),
        old(index).wf(),
        batch_size >= 1,
    ensures
        final(rel).wf(),
        final(index).wf(),
        final(rel).groups == old(rel).groups,
        r is Ok,
        final(rel).chunks_view() == spec_rows_not_of_dataset(old(rel).chunks_view(), dataset_id),
        final(rel).memberships@ == spec_memberships_without_chunks(
            old(rel).memberships@,
            spec_ref_ids(spec_dataset_rows(old(rel).chunks_view(), dataset_id)),
        ),
        final(index).points_view() == spec_points_without_ids(
            old(index).points_view(),
            spec_ref_point_ids(spec_dataset_rows(old(rel).chunks_view(), dataset_id)),
        ),
        ({
            let sizes = spec_batch_sizes(
                spec_dataset_rows(old(rel).chunks_view(), dataset_id).len() as int,
                batch_size as int,
            );
            &&& final(events)@.len() == old(events)@.len() + sizes.len()
            &&& (forall|t: int|
                0 <= t < old(events)@.len() ==> final(events)@[t] == #[trigger] old(events)@[t])
            &&& (forall|j: int|
                0 <= j < sizes.len() ==> {
                    let ev = #[trigger] final(events)@[old(events)@.len() + j];
                    ev.dataset_id == dataset_id && (ev.event_type matches
                        EventType::BulkChunksDeleted { message } && message@
                        == spec_deleted_message(sizes[j]))
                })
        }),
{
    let ghost cs0 = rel.chunks_view();
    let ghost ms0 = rel.memberships@;
    let ghost ps0 = index.points_view();
    let ghost e0 = events@;
    let refs: Vec<(u128, Option<u128>)> = rel.dataset_chunk_refs(dataset_id);
    let ghost all = refs@;
    let total: usize = refs.len();
    let mut start: usize = 0;
    let ghost mut done: Seq<int> = Seq::empty();
    proof {
        assert(Seq::<int>::empty() + spec_batch_sizes(total as int, batch_size as int)
            =~= spec_batch_sizes(total as int, batch_size as int));
        assert(all.subrange(0, 0) =~= Seq::<(u128, Option<u128>)>::empty());
        assert(spec_without_ids(cs0, spec_ref_ids(all.subrange(0, 0))) =~= cs0) by {
            lemma_without_nothing(cs0, spec_ref_ids(all.subrange(0, 0)));
        }
        assert(spec_memberships_without_chunks(ms0, spec_ref_ids(all.subrange(0, 0))) =~= ms0) by {
            lemma_memberships_without_nothing(ms0, spec_ref_ids(all.subrange(0, 0)));
        }
        assert(spec_points_without_ids(ps0, spec_ref_point_ids(all.subrange(0, 0))) =~= ps0) by {
            assert(spec_ref_point_ids(all.subrange(0, 0)) =~= Seq::<u128>::empty());
            lemma_points_without_nothing(ps0, spec_ref_point_ids(all.subrange(0, 0)));
        }
    }
    while start < total
        invariant
            old(rel).wf(),
            old(index).wf(),
            batch_size >= 1,
            rel.wf(),
            index.wf(),
            rel.groups == old(rel).groups,
            cs0 == old(rel).chunks_view(),
            ms0 == old(rel).memberships@,
            ps0 == old(index).points_view(),
            all == spec_dataset_rows(cs0, dataset_id),
            refs@ == all,
            total == all.len(),
            start <= total,
            rel.chunks_view() == spec_without_ids(cs0, spec_ref_ids(all.subrange(0, start as int))),
            rel.memberships@ == spec_memberships_without_chunks(
                ms0,
                spec_ref_ids(all.subrange(0, start as int)),
            ),
            index.points_view() == spec_points_without_ids(
                ps0,
                spec_ref_point_ids(all.subrange(0, start as int)),
            ),
            events@.len() == e0.len() + done.len(),
            spec_batch_sizes(total as int, batch_size as int) =~= done + spec_batch_sizes(
                total - start,
                batch_size as int,
            ),
            forall|t: int| 0 <= t < e0.len() ==> events@[t] == #[trigger] e0[t],
            forall|j: int|
                0 <= j < done.len() ==> {
                    let ev = #[trigger] events@[e0.len() + j];
                    ev.dataset_id == dataset_id && (ev.event_type matches
                        EventType::BulkChunksDeleted { message } && message@
                        == spec_deleted_message(done[j]))
                },
        decreases total - start,
    {
        let remaining: usize = total - start;
        let len: usize = if remaining <= batch_size {
            remaining
        } else {
            batch_size
        };
        let end: usize = start + len;
        let mut ids: Vec<u128> = Vec::new();
        let mut pids: Vec<u128> = Vec::new();
        let mut k: usize = start;
        proof {
            assert(spec_ref_ids(all.subrange(start as int, start as int)) =~= Seq::<
                u128,
            >::empty());
            assert(spec_ref_point_ids(all.subrange(start as int, start as int)) =~= Seq::<
                u128,
            >::empty());
        }
        while k < end
            invariant
                start <= k <= end <= all.len(),
                refs@ == all,
                ids@ =~= spec_ref_ids(all.subrange(start as int, k as int)),
                pids@ =~= spec_ref_point_ids(all.subrange(start as int, k as int)),
            decreases end - k,
        {
            proof {
                let sub = all.subrange(start as int, k + 1);
                assert(sub.drop_last() =~= all.subrange(start as int, k as int));
                assert(sub.last() == all[k as int]);
                lemma_ref_ids_push(all.subrange(start as int, k as int), all[k as int]);
                lemma_ref_point_ids_push(all.subrange(start as int, k as int), all[k as int]);
            }
            let (cid, pid_opt) = refs[k];
            ids.push(cid);
            match pid_opt {
                Some(pid) => {
                    pids.push(pid);
                },
                None => {},
            }
            proof {
                assert(all.subrange(start as int, k + 1) =~= all.subrange(
                    start as int,
                    k as int,
                ).push(all[k as int]));
                assert(ids@ =~= spec_ref_ids(all.subrange(start as int, k + 1)));
                assert(pids@ =~= spec_ref_point_ids(all.subrange(start as int, k + 1)));
            }
            k = k + 1;
        }
        rel.bulk_revert_insert_chunk_metadata_query(&ids);
        index.delete_points(&pids);
        let ev_text = deleted_message(len as u64);
        events.push(Event::from_details(dataset_id, EventType::BulkChunksDeleted {
            message: ev_text,
        }));
        proof {
            let pre = all.subrange(0, start as int);
            let mid = all.subrange(start as int, end as int);
            let post = all.subrange(0, end as int);
            assert(post =~= pre + mid);
            lemma_ref_ids_concat(pre, mid);
            lemma_ref_point_ids_concat(pre, mid);
            lemma_without_ids_compose(cs0, spec_ref_ids(pre), spec_ref_ids(mid));
            lemma_memberships_without_compose(ms0, spec_ref_ids(pre), spec_ref_ids(mid));
            lemma_points_without_compose(ps0, spec_ref_point_ids(pre), spec_ref_point_ids(mid));
            assert(rel.chunks_view() =~= spec_without_ids(cs0, spec_ref_ids(post)));
            assert(rel.memberships@ =~= spec_memberships_without_chunks(
                ms0,
                spec_ref_ids(post),
            ));
            assert(index.points_view() =~= spec_points_without_ids(
                ps0,
                spec_ref_point_ids(post),
            ));
            assert(spec_batch_sizes(total - start, batch_size as int) =~= seq![len as int]
                + spec_batch_sizes(total - end, batch_size as int)) by {
                if total - start <= batch_size {
                    assert(spec_batch_sizes((total - end) as int, batch_size as int) =~= Seq::<
                        int,
                    >::empty());
                }
            }
            done = done.push(len as int);
            assert(done + spec_batch_sizes(total - end, batch_size as int)
                =~= done.drop_last() + spec_batch_sizes(total - start, batch_size as int));
        }
        start = end;
    }
    proof {
        assert(all.subrange(0, total as int) =~= all);
        assert(spec_batch_sizes(0int, batch_size as int) =~= Seq::<int>::empty());
        assert(done =~= spec_batch_sizes(total as int, batch_size as int));
        lemma_dataset_rows_cover(cs0, dataset_id);
        lemma_delete_all(cs0, spec_ref_ids(all), dataset_id);
    }
    Ok(())
}

pub proof fn lemma_without_nothing(cs: Seq<ChunkMetadataView>, ids: Seq<u128>)
    requires
        ids.len() == 0,
    ensures
        spec_without_ids(cs, ids) == cs,
    decreases cs.len(),
{
    if cs.len() > 0 {
        lemma_without_nothing(cs.skip(1), ids);
        assert(spec_without_ids(cs, ids) =~= cs);
    } else {
        assert(spec_without_ids(cs, ids) =~= cs);
    }
}

proof fn lemma_memberships_without_nothing(ms: Seq<Membership>, ids: Seq<u128>)
    requires
        ids.len() == 0,
    ensures
        spec_memberships_without_chunks(ms, ids) == ms,
    decreases ms.len(),
{
    if ms.len() > 0 {
        lemma_memberships_without_nothing(ms.skip(1), ids);
        assert(spec_memberships_without_chunks(ms, ids) =~= ms);
    } else {
        assert(spec_memberships_without_chunks(ms, ids) =~= ms);
    }
}

proof fn lemma_points_without_nothing(ps: Seq<PointDataView>, ids: Seq<u128>)
    requires
        ids.len() == 0,
    ensures
        spec_points_without_ids(ps, ids) == ps,
    decreases ps.len(),
{
    if ps.len() > 0 {
        lemma_points_without_nothing(ps.skip(1), ids);
        assert(spec_points_without_ids(ps, ids) =~= ps);
    } else {
        assert(spec_points_without_ids(ps, ids) =~= ps);
    }
}

proof fn lemma_ref_ids_push(refs: Seq<(u128, Option<u128>)>, x: (u128, Option<u128>))
    ensures
        spec_ref_ids(refs.push(x)) == spec_ref_ids(refs).push(x.0),
{
    assert(spec_ref_ids(refs.push(x)) =~= spec_ref_ids(refs).push(x.0));
}

proof fn lemma_ref_point_ids_push(refs: Seq<(u128, Option<u128>)>, x: (u128, Option<u128>))
    ensures
        spec_ref_point_ids(refs.push(x)) == (if x.1 is Some {
            spec_ref_point_ids(refs).push(x.1->0)
        } else {
            spec_ref_point_ids(refs)
        }),
    decreases refs.len(),
{
    if refs.len() == 0 {
        assert(refs.push(x)[0] == x);
        assert(refs.push(x).skip(1) =~= Seq::<(u128, Option<u128>)>::empty());
        assert(spec_ref_point_ids(Seq::<(u128, Option<u128>)>::empty()) =~= Seq::<u128>::empty());
        if x.1 is Some {
            assert(spec_ref_point_ids(refs.push(x)) =~= spec_ref_point_ids(refs).push(x.1->0));
        } else {
            assert(spec_ref_point_ids(refs.push(x)) =~= spec_ref_point_ids(refs));
        }
    } else {
        lemma_ref_point_ids_push(refs.skip(1), x);
        assert(refs.push(x).skip(1) =~= refs.skip(1).push(x));
        assert(refs.push(x)[0] == refs[0]);
        if x.1 is Some {
            assert(spec_ref_point_ids(refs.push(x)) =~= spec_ref_point_ids(refs).push(x.1->0));
        } else {
            assert(spec_ref_point_ids(refs.push(x)) =~= spec_ref_point_ids(refs));
        }
    }
}

proof fn lemma_ref_ids_concat(a: Seq<(u128, Option<u128>)>, b: Seq<(u128, Option<u128>)>)
    ensures
        spec_ref_ids(a + b) == spec_ref_ids(a) + spec_ref_ids(b),
{
    assert(spec_ref_ids(a + b) =~= spec_ref_ids(a) + spec_ref_ids(b));
}

proof fn lemma_ref_point_ids_concat(a: Seq<(u128, Option<u128>)>, b: Seq<(u128, Option<u128>)>)
    ensures
        spec_ref_point_ids(a + b) == spec_ref_point_ids(a) + spec_ref_point_ids(b),
    decreases a.len(),
{
    if a.len() == 0 {
        assert(a + b =~= b);
        assert(spec_ref_point_ids(a) =~= Seq::<u128>::empty());
        assert(spec_ref_point_ids(a) + spec_ref_point_ids(b) =~= spec_ref_point_ids(b));
    } else {
        lemma_ref_point_ids_concat(a.skip(1), b);
        assert((a + b).skip(1) =~= a.skip(1) + b);
        assert((a + b)[0] == a[0]);
        if a[0].1 is Some {
            assert(spec_ref_point_ids(a + b) =~= spec_ref_point_ids(a) + spec_ref_point_ids(b));
        } else {
            assert(spec_ref_point_ids(a + b) =~= spec_ref_point_ids(a) + spec_ref_point_ids(b));
        }
    }
}

/// Whether some row of `cs` in the dataset matches the reference.
pub open spec fn spec_row_listed(
    cs: Seq<ChunkMetadataView>,
    dataset_id: u128,
    p: (u128, Option<u128>),
) -> bool {
    exists|j: int|
        0 <= j < cs.len() && (#[trigger] cs[j]).id == p.0 && cs[j].qdrant_point_id == p.1
            && cs[j].dataset_id == dataset_id
}

proof fn lemma_dataset_rows_members(cs: Seq<ChunkMetadataView>, dataset_id: u128)
    ensures
        forall|t: int|
            0 <= t < spec_dataset_rows(cs, dataset_id).len() ==> spec_row_listed(
                cs,
                dataset_id,
                #[trigger] spec_dataset_rows(cs, dataset_id)[t],
            ),
        forall|j: int|
            0 <= j < cs.len() && (#[trigger] cs[j]).dataset_id == dataset_id
                ==> spec_dataset_rows(cs, dataset_id).contains((cs[j].id, cs[j].qdrant_point_id)),
    decreases cs.len(),
{
    if cs.len() > 0 {
        let tail = cs.skip(1);
        lemma_dataset_rows_members(tail, dataset_id);
        let rest = spec_dataset_rows(tail, dataset_id);
        let rows = spec_dataset_rows(cs, dataset_id);
        let kept0 = cs[0].dataset_id == dataset_id;
        assert forall|t: int|
            0 <= t < rows.len() implies spec_row_listed(
            cs,
            dataset_id,
            #[trigger] rows[t],
        ) by {
            if kept0 && t == 0 {
                assert(rows[0] == (cs[0].id, cs[0].qdrant_point_id));
                assert((#[trigger] cs[0]).id == rows[t].0 && cs[0].qdrant_point_id == rows[t].1
                    && cs[0].dataset_id == dataset_id);
            } else {
                let rt = if kept0 {
                    t - 1
                } else {
                    t
                };
                assert(rows[t] == rest[rt]);
                assert(spec_row_listed(tail, dataset_id, rest[rt]));
                let j = choose|j: int|
                    0 <= j < tail.len() && (#[trigger] tail[j]).id == rest[rt].0
                        && tail[j].qdrant_point_id == rest[rt].1 && tail[j].dataset_id
                        == dataset_id;
                assert(cs[j + 1] == tail[j]);
                assert((#[trigger] cs[j + 1]).id == rows[t].0 && cs[j + 1].qdrant_point_id
                    == rows[t].1 && cs[j + 1].dataset_id == dataset_id);
            }
        }
        assert forall|j: int|
            0 <= j < cs.len() && (#[trigger] cs[j]).dataset_id == dataset_id implies rows.contains(
            (cs[j].id, cs[j].qdrant_point_id),
        ) by {
            if j == 0 {
                assert(rows[0] == (cs[0].id, cs[0].qdrant_point_id));
            } else {
                assert(tail[j - 1] == cs[j]);
                assert(rest.contains((cs[j].id, cs[j].qdrant_point_id)));
                let t = choose|t: int|
                    0 <= t < rest.len() && rest[t] == (cs[j].id, cs[j].qdrant_point_id);
                if kept0 {
                    assert(rows[t + 1] == rest[t]);
                } else {
                    assert(rows[t] == rest[t]);
                }
            }
        }
    } else {
        assert(spec_dataset_rows(cs, dataset_id) =~= Seq::<(u128, Option<u128>)>::empty());
    }
}

/// The ids of a dataset's rows list exactly the rows of that dataset.
proof fn lemma_dataset_rows_cover(cs: Seq<ChunkMetadataView>, dataset_id: u128)
    requires
        crate::store::spec_chunk_ids_unique(cs),
    ensures
        forall|i: int|
            0 <= i < cs.len() ==> ((#[trigger] cs[i]).dataset_id == dataset_id
                <==> spec_ref_ids(spec_dataset_rows(cs, dataset_id)).contains(cs[i].id)),
{
    lemma_dataset_rows_members(cs, dataset_id);
    let rows = spec_dataset_rows(cs, dataset_id);
    let ids = spec_ref_ids(rows);
    assert forall|i: int|
        0 <= i < cs.len() implies ((#[trigger] cs[i]).dataset_id == dataset_id <==> ids.contains(
        cs[i].id,
    )) by {
        if cs[i].dataset_id == dataset_id {
            assert(rows.contains((cs[i].id, cs[i].qdrant_point_id)));
            let t = choose|t: int|
                0 <= t < rows.len() && rows[t] == (cs[i].id, cs[i].qdrant_point_id);
            assert(ids[t] == cs[i].id);
            assert(ids.contains(cs[i].id));
        }
        if ids.contains(cs[i].id) {
            let t = choose|t: int| 0 <= t < ids.len() && ids[t] == cs[i].id;
            assert(rows[t].0 == cs[i].id);
            assert(spec_row_listed(cs, dataset_id, rows[t]));
            let j = choose|j: int|
                0 <= j < cs.len() && (#[trigger] cs[j]).id == rows[t].0
                    && cs[j].qdrant_point_id == rows[t].1 && cs[j].dataset_id == dataset_id;
            if j != i {
                if j < i {
                    assert(cs[j].id != cs[i].id);
                } else {
                    assert(cs[i].id != cs[j].id);
                }
                assert(false);
            }
        }
    }
}

} // verus!
