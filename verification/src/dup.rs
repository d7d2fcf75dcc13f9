use vstd::prelude::*;
use crate::models::{
    BoostPhrase, ChunkData, ChunkGroup, ChunkMetadata, ChunkReqPayload, QdrantPayload,
    SparseVector,
};

verus! {

/// Copies a vector of plain (copyable) values.
pub fn copy_vec<T: Copy>(v: &Vec<T>) -> (r: Vec<T>)
    ensures
        r@ == v@,
{
    let mut r: Vec<T> = Vec::new();
    let mut i: usize = 0;
    while i < v.len()
        invariant
            i <= v@.len(),
            r@ =~= v@.subrange(0, i as int),
        decreases v@.len() - i,
    {
        r.push(v[i]);
        assert(r@ =~= v@.subrange(0, i + 1));
        i = i + 1;
    }
    assert(r@ =~= v@);
    r
}

/// Copies an optional vector of plain values.
pub fn copy_opt_vec<T: Copy>(v: &Option<Vec<T>>) -> (r: Option<Vec<T>>)
    ensures
        r is Some <==> v is Some,
        r is Some ==> r->0@ == v->0@,
{
    match v {
        Some(inner) => Some(copy_vec(inner)),
        None => None,
    }
}

/// Clones an optional string, keeping its characters.
pub fn clone_opt_string(v: &Option<String>) -> (r: Option<String>)
    ensures
        r == *v,
{
    match v {
        Some(s) => Some(s.clone()),
        None => None,
    }
}

/// Clones a vector of optional strings, keeping every element.
pub fn clone_opt_string_vec(v: &Vec<Option<String>>) -> (r: Vec<Option<String>>)
    ensures
        r@ == v@,
{
    let mut r: Vec<Option<String>> = Vec::new();
    let mut i: usize = 0;
    while i < v.len()
        invariant
            i <= v@.len(),
            r@ =~= v@.subrange(0, i as int),
        decreases v@.len() - i,
    {
        r.push(clone_opt_string(&v[i]));
        assert(r@ =~= v@.subrange(0, i + 1));
        i = i + 1;
    }
    assert(r@ =~= v@);
    r
}

/// Clones the optional tag list of a chunk row or group.
pub fn clone_tag_set(v: &Option<Vec<Option<String>>>) -> (r: Option<Vec<Option<String>>>)
    ensures
        r is Some <==> v is Some,
        r is Some ==> r->0@ == v->0@,
{
    match v {
        Some(inner) => Some(clone_opt_string_vec(inner)),
        None => None,
    }
}

/// Clones a boost phrase, keeping its value.
pub fn clone_boost_phrase(v: &BoostPhrase) -> (r: BoostPhrase)
    ensures
        r@ == v@,
{
    let r = BoostPhrase { phrase: v.phrase.clone(), boost_factor: v.boost_factor };
    proof {
        assert(r@ =~= v@);
    }
    r
}

/// Clones an optional boost phrase, keeping its value.
pub fn clone_opt_boost_phrase(v: &Option<BoostPhrase>) -> (r: Option<BoostPhrase>)
    ensures
        crate::models::view_opt_boost(r) == crate::models::view_opt_boost(*v),
        r is Some <==> v is Some,
{
    match v {
        Some(b) => Some(clone_boost_phrase(b)),
        None => None,
    }
}

/// Clones a chunk row, keeping its value.
pub fn clone_chunk_metadata(m: &ChunkMetadata) -> (r: ChunkMetadata)
    ensures
        r@ == m@,
{
    let tag_set = clone_tag_set(&m.tag_set);
    let image_urls = clone_tag_set(&m.image_urls);
    let r = ChunkMetadata {
        id: m.id,
        link: clone_opt_string(&m.link),
        qdrant_point_id: m.qdrant_point_id,
        created_at: m.created_at,
        updated_at: m.updated_at,
        chunk_html: clone_opt_string(&m.chunk_html),
        metadata: clone_opt_string(&m.metadata),
        tracking_id: clone_opt_string(&m.tracking_id),
        time_stamp: m.time_stamp,
        location: m.location,
        dataset_id: m.dataset_id,
        weight: m.weight,
        image_urls,
        tag_set,
        num_value: m.num_value,
    };
    proof {
        if m.tag_set is Some {
            assert(r.tag_set->0@ =~= m.tag_set->0@);
        }
        if m.image_urls is Some {
            assert(r.image_urls->0@ =~= m.image_urls->0@);
        }
        assert(r@ =~~= m@);
    }
    r
}

/// Clones a sparse vector, keeping its pairs.
pub fn clone_sparse_vector(v: &SparseVector) -> (r: SparseVector)
    ensures
        r@ == v@,
{
    copy_vec(v)
}

/// Clones a group record, keeping its value.
pub fn clone_chunk_group(g: &ChunkGroup) -> (r: ChunkGroup)
    ensures
        r@ == g@,
{
    let tag_set = clone_tag_set(&g.tag_set);
    let r = ChunkGroup { id: g.id, dataset_id: g.dataset_id, name: g.name.clone(), tag_set };
    proof {
        if g.tag_set is Some {
            assert(r.tag_set->0@ =~= g.tag_set->0@);
        }
        assert(r@ =~~= g@);
    }
    r
}

/// Clones a search payload, keeping its value.
pub fn clone_qdrant_payload(p: &QdrantPayload) -> (r: QdrantPayload)
    ensures
        r@ == p@,
{
    let group_tag_set = clone_tag_set(&p.group_tag_set);
    let group_ids = copy_vec(&p.group_ids);
    let r = QdrantPayload {
        dataset_id: p.dataset_id,
        group_ids,
        group_tag_set,
        time_stamp: p.time_stamp,
        location: p.location,
        weight: p.weight,
        num_value: p.num_value,
        tracking_id: clone_opt_string(&p.tracking_id),
        metadata: clone_opt_string(&p.metadata),
    };
    proof {
        if p.group_tag_set is Some {
            assert(r.group_tag_set->0@ =~= p.group_tag_set->0@);
        }
        assert(r@ =~~= p@);
    }
    r
}

/// Clones a prepared chunk, keeping its value.
pub fn clone_chunk_data(d: &ChunkData) -> (r: ChunkData)
    ensures
        r@ == d@,
{
    let r = ChunkData {
        chunk_metadata: clone_chunk_metadata(&d.chunk_metadata),
        content: d.content.clone(),
        group_ids: copy_opt_vec(&d.group_ids),
        upsert_by_tracking_id: d.upsert_by_tracking_id,
        boost_phrase: clone_opt_boost_phrase(&d.boost_phrase),
    };
    proof {
        assert(r@ =~~= d@);
    }
    r
}

} // verus!
