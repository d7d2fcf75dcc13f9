use vstd::prelude::*;
use crate::numfmt::{spec_u64_string, u64_to_string};

verus! {

/// The dense arities the index recognises; each has a collection of its
/// own, whose dense field carries the collection's name.
pub open spec fn spec_supported_arity(n: int) -> bool {
    n == 384 || n == 512 || n == 768 || n == 1024 || n == 1536 || n == 3072
}

/// The name `{arity}_vectors` of the collection (and dense field) for a
/// dense arity.
pub open spec fn spec_vector_collection_name(n: int) -> Seq<char> {
    spec_u64_string(n as u64) + "_vectors"@
}

/// Renders the collection name `{embedding_size}_vectors` of a dataset.
pub fn vector_collection_name(embedding_size: usize) -> (r: String)
    ensures
        r@ == spec_vector_collection_name(embedding_size as int),
{
    let mut s = u64_to_string(embedding_size as u64);
    s.append("_vectors");
    s
}

/// Chooses the dense vector field by embedding arity: `{L}_vectors`
/// for a recognised arity L, nothing for any other length.
pub fn vector_name_for_arity(len: usize) -> (r: Option<String>)
    ensures
        r is Some <==> spec_supported_arity(len as int),
        r is Some ==> r->0@ == spec_vector_collection_name(len as int),
{
    if len == 384 || len == 512 || len == 768 || len == 1024 || len == 1536 || len == 3072 {
        Some(vector_collection_name(len))
    } else {
        None
    }
}

} // verus!
