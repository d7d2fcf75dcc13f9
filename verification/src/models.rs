use vstd::prelude::*;
use crate::config::ServerDatasetConfiguration;

verus! {

/// Geographic location in fixed-point micro-degrees.
#[derive(Clone, Copy, Debug, PartialEq, Eq, Structural)]
pub struct GeoPoint {
    pub lat: i64,
    pub lon: i64,
}

/// Optional lexical emphasis handed to the sparse embedder.  The boost
/// factor is fixed point in units of `crate::config::SCORE_ONE`.
#[derive(Clone, Debug)]
pub struct BoostPhrase {
    pub phrase: String,
    pub boost_factor: i64,
}

/// A dense semantic embedding, fixed point per coordinate.
pub type DenseVector = Vec<i64>;

/// A sparse lexical embedding: (token id, fixed-point weight) pairs.
pub type SparseVector = Vec<(u32, i64)>;

/// The mathematical value of a `BoostPhrase`.
#[verifier::ext_equal]
pub struct BoostPhraseView {
    pub phrase: Seq<char>,
    pub boost_factor: i64,
}

impl View for BoostPhrase {
    type V = BoostPhraseView;

    open spec fn view(&self) -> BoostPhraseView {
        BoostPhraseView { phrase: self.phrase@, boost_factor: self.boost_factor }
    }
}

/// The value of an optional string.
pub open spec fn view_opt_string(o: Option<String>) -> Option<Seq<char>> {
    match o {
        Some(s) => Some(s@),
        None => None,
    }
}

/// The value of an optional list of optional strings.
pub open spec fn view_tag_list(o: Option<Vec<Option<String>>>) -> Option<
    Seq<Option<Seq<char>>>,
> {
    match o {
        Some(v) => Some(v@.map_values(|t: Option<String>| view_opt_string(t))),
        None => None,
    }
}

/// The value of an optional list of strings.
pub open spec fn view_string_list(o: Option<Vec<String>>) -> Option<Seq<Seq<char>>> {
    match o {
        Some(v) => Some(v@.map_values(|t: String| t@)),
        None => None,
    }
}

/// The value of an optional list of plain values.
pub open spec fn view_opt_vec<T>(o: Option<Vec<T>>) -> Option<Seq<T>> {
    match o {
        Some(v) => Some(v@),
        None => None,
    }
}

/// The value of an optional boost phrase.
pub open spec fn view_opt_boost(o: Option<BoostPhrase>) -> Option<BoostPhraseView> {
    match o {
        Some(b) => Some(b@),
        None => None,
    }
}

/// Relational row describing one chunk.  Identifiers are 128-bit
/// values; timestamps are epoch seconds; `weight` and `num_value` are
/// fixed point.  `qdrant_point_id` is `None` exactly on pure-collision
/// rows, whose point belongs to the collision winner.
#[derive(Clone, Debug)]
pub struct ChunkMetadata {
    pub id: u128,
    pub link: Option<String>,
    pub qdrant_point_id: Option<u128>,
    pub created_at: i64,
    pub updated_at: i64,
    pub chunk_html: Option<String>,
    pub metadata: Option<String>,
    pub tracking_id: Option<String>,
    pub time_stamp: Option<i64>,
    pub location: Option<GeoPoint>,
    pub dataset_id: u128,
    pub weight: i64,
    pub image_urls: Option<Vec<Option<String>>>,
    pub tag_set: Option<Vec<Option<String>>>,
    pub num_value: Option<i64>,
}

/// The mathematical value of a chunk row.
#[verifier::ext_equal]
pub struct ChunkMetadataView {
    pub id: u128,
    pub link: Option<Seq<char>>,
    pub qdrant_point_id: Option<u128>,
    pub created_at: i64,
    pub updated_at: i64,
    pub chunk_html: Option<Seq<char>>,
    pub metadata: Option<Seq<char>>,
    pub tracking_id: Option<Seq<char>>,
    pub time_stamp: Option<i64>,
    pub location: Option<GeoPoint>,
    pub dataset_id: u128,
    pub weight: i64,
    pub image_urls: Option<Seq<Option<Seq<char>>>>,
    pub tag_set: Option<Seq<Option<Seq<char>>>>,
    pub num_value: Option<i64>,
}

impl View for ChunkMetadata {
    type V = ChunkMetadataView;

    open spec fn view(&self) -> ChunkMetadataView {
        ChunkMetadataView {
            id: self.id,
            link: view_opt_string(self.link),
            qdrant_point_id: self.qdrant_point_id,
            created_at: self.created_at,
            updated_at: self.updated_at,
            chunk_html: view_opt_string(self.chunk_html),
            metadata: view_opt_string(self.metadata),
            tracking_id: view_opt_string(self.tracking_id),
            time_stamp: self.time_stamp,
            location: self.location,
            dataset_id: self.dataset_id,
            weight: self.weight,
            image_urls: view_tag_list(self.image_urls),
            tag_set: view_tag_list(self.tag_set),
            num_value: self.num_value,
        }
    }
}

/// Whether a chunk row carries a tenant-visible tracking id.  Empty
/// tracking ids are canonicalised away during data preparation, so a
/// present id is counted whatever it holds.
pub open spec fn has_tracking_id(m: ChunkMetadataView) -> bool {
    m.tracking_id is Some
}

/// Whether two chunk rows claim the same (dataset, tracking id) key.
pub open spec fn same_tracking_key(a: ChunkMetadataView, b: ChunkMetadataView) -> bool {
    a.dataset_id == b.dataset_id && has_tracking_id(a) && has_tracking_id(b)
        && a.tracking_id->0 == b.tracking_id->0
}

/// The tenant-supplied description of one chunk inside an upload
/// envelope, before data preparation.
#[derive(Clone, Debug)]
pub struct ChunkReqPayload {
    pub chunk_html: Option<String>,
    pub link: Option<String>,
    pub tag_set: Option<Vec<String>>,
    pub metadata: Option<String>,
    pub tracking_id: Option<String>,
    pub time_stamp: Option<String>,
    pub location: Option<GeoPoint>,
    pub weight: Option<i64>,
    pub image_urls: Option<Vec<String>>,
    pub num_value: Option<i64>,
    pub group_ids: Option<Vec<u128>>,
    pub split_avg: Option<bool>,
    pub chunk_vector: Option<DenseVector>,
    pub convert_html_to_text: Option<bool>,
    pub boost_phrase: Option<BoostPhrase>,
}

/// The mathematical value of a tenant-supplied chunk description.
#[verifier::ext_equal]
pub struct ChunkReqPayloadView {
    pub chunk_html: Option<Seq<char>>,
    pub link: Option<Seq<char>>,
    pub tag_set: Option<Seq<Seq<char>>>,
    pub metadata: Option<Seq<char>>,
    pub tracking_id: Option<Seq<char>>,
    pub time_stamp: Option<Seq<char>>,
    pub location: Option<GeoPoint>,
    pub weight: Option<i64>,
    pub image_urls: Option<Seq<Seq<char>>>,
    pub num_value: Option<i64>,
    pub group_ids: Option<Seq<u128>>,
    pub split_avg: Option<bool>,
    pub chunk_vector: Option<Seq<i64>>,
    pub convert_html_to_text: Option<bool>,
    pub boost_phrase: Option<BoostPhraseView>,
}

impl View for ChunkReqPayload {
    type V = ChunkReqPayloadView;

    open spec fn view(&self) -> ChunkReqPayloadView {
        ChunkReqPayloadView {
            chunk_html: view_opt_string(self.chunk_html),
            link: view_opt_string(self.link),
            tag_set: view_string_list(self.tag_set),
            metadata: view_opt_string(self.metadata),
            tracking_id: view_opt_string(self.tracking_id),
            time_stamp: view_opt_string(self.time_stamp),
            location: self.location,
            weight: self.weight,
            image_urls: view_string_list(self.image_urls),
            num_value: self.num_value,
            group_ids: view_opt_vec(self.group_ids),
            split_avg: self.split_avg,
            chunk_vector: view_opt_vec(self.chunk_vector),
            convert_html_to_text: self.convert_html_to_text,
            boost_phrase: view_opt_boost(self.boost_phrase),
        }
    }
}

/// Identity a producer fixed for a chunk before enqueueing it.
#[derive(Clone, Copy, Debug)]
pub struct IngestSpecificChunkMetadata {
    pub id: u128,
    pub qdrant_point_id: Option<u128>,
    pub dataset_id: u128,
}

/// One message of a bulk upload envelope.
#[derive(Clone, Debug)]
pub struct UploadIngestionMessage {
    pub ingest_specific_chunk_metadata: IngestSpecificChunkMetadata,
    pub chunk: ChunkReqPayload,
    pub dataset_id: u128,
    pub dataset_config: ServerDatasetConfiguration,
    pub upsert_by_tracking_id: bool,
}

/// The mathematical value of one bulk upload message.
#[verifier::ext_equal]
pub struct UploadIngestionMessageView {
    pub ingest_specific_chunk_metadata: IngestSpecificChunkMetadata,
    pub chunk: ChunkReqPayloadView,
    pub dataset_id: u128,
    pub dataset_config: ServerDatasetConfiguration,
    pub upsert_by_tracking_id: bool,
}

impl View for UploadIngestionMessage {
    type V = UploadIngestionMessageView;

    open spec fn view(&self) -> UploadIngestionMessageView {
        UploadIngestionMessageView {
            ingest_specific_chunk_metadata: self.ingest_specific_chunk_metadata,
            chunk: self.chunk@,
            dataset_id: self.dataset_id,
            dataset_config: self.dataset_config,
            upsert_by_tracking_id: self.upsert_by_tracking_id,
        }
    }
}

/// Envelope of the bulk upload job.
#[derive(Clone, Debug)]
pub struct BulkUploadIngestionMessage {
    pub attempt_number: u64,
    pub dataset_id: u128,
    pub dataset_configuration: ServerDatasetConfiguration,
    pub ingestion_messages: Vec<UploadIngestionMessage>,
}

/// The mathematical value of a bulk upload envelope.
#[verifier::ext_equal]
pub struct BulkUploadIngestionMessageView {
    pub attempt_number: u64,
    pub dataset_id: u128,
    pub dataset_configuration: ServerDatasetConfiguration,
    pub ingestion_messages: Seq<UploadIngestionMessageView>,
}

impl View for BulkUploadIngestionMessage {
    type V = BulkUploadIngestionMessageView;

    open spec fn view(&self) -> BulkUploadIngestionMessageView {
        BulkUploadIngestionMessageView {
            attempt_number: self.attempt_number,
            dataset_id: self.dataset_id,
            dataset_configuration: self.dataset_configuration,
            ingestion_messages: self.ingestion_messages@.map_values(
                |m: UploadIngestionMessage| m@,
            ),
        }
    }
}

/// Envelope of the chunk update job.
#[derive(Clone, Debug)]
pub struct UpdateIngestionMessage {
    pub chunk_metadata: ChunkMetadata,
    pub group_ids: Option<Vec<u128>>,
    pub convert_html_to_text: Option<bool>,
    pub boost_phrase: Option<BoostPhrase>,
    pub dataset_id: u128,
    pub server_dataset_config: ServerDatasetConfiguration,
    pub attempt_number: u64,
}

/// The mathematical value of an update envelope.
#[verifier::ext_equal]
pub struct UpdateIngestionMessageView {
    pub chunk_metadata: ChunkMetadataView,
    pub group_ids: Option<Seq<u128>>,
    pub convert_html_to_text: Option<bool>,
    pub boost_phrase: Option<BoostPhraseView>,
    pub dataset_id: u128,
    pub server_dataset_config: ServerDatasetConfiguration,
    pub attempt_number: u64,
}

impl View for UpdateIngestionMessage {
    type V = UpdateIngestionMessageView;

    open spec fn view(&self) -> UpdateIngestionMessageView {
        UpdateIngestionMessageView {
            chunk_metadata: self.chunk_metadata@,
            group_ids: view_opt_vec(self.group_ids),
            convert_html_to_text: self.convert_html_to_text,
            boost_phrase: view_opt_boost(self.boost_phrase),
            dataset_id: self.dataset_id,
            server_dataset_config: self.server_dataset_config,
            attempt_number: self.attempt_number,
        }
    }
}

/// The two job shapes the ingestion queue multiplexes.
#[derive(Clone, Debug)]
pub enum IngestionMessage {
    BulkUpload(BulkUploadIngestionMessage),
    Update(UpdateIngestionMessage),
}

/// The mathematical value of an ingestion-queue job.
#[verifier::ext_equal]
pub enum IngestionMessageView {
    BulkUpload(BulkUploadIngestionMessageView),
    Update(UpdateIngestionMessageView),
}

impl View for IngestionMessage {
    type V = IngestionMessageView;

    open spec fn view(&self) -> IngestionMessageView {
        match self {
            IngestionMessage::BulkUpload(b) => IngestionMessageView::BulkUpload(b@),
            IngestionMessage::Update(u) => IngestionMessageView::Update(u@),
        }
    }
}

/// A prepared chunk: the relational row to insert together with the
/// normalised content that is embedded.
#[derive(Clone, Debug)]
pub struct ChunkData {
    pub chunk_metadata: ChunkMetadata,
    pub content: String,
    pub group_ids: Option<Vec<u128>>,
    pub upsert_by_tracking_id: bool,
    pub boost_phrase: Option<BoostPhrase>,
}

/// The mathematical value of a prepared chunk.
#[verifier::ext_equal]
pub struct ChunkDataView {
    pub chunk_metadata: ChunkMetadataView,
    pub content: Seq<char>,
    pub group_ids: Option<Seq<u128>>,
    pub upsert_by_tracking_id: bool,
    pub boost_phrase: Option<BoostPhraseView>,
}

impl View for ChunkData {
    type V = ChunkDataView;

    open spec fn view(&self) -> ChunkDataView {
        ChunkDataView {
            chunk_metadata: self.chunk_metadata@,
            content: self.content@,
            group_ids: view_opt_vec(self.group_ids),
            upsert_by_tracking_id: self.upsert_by_tracking_id,
            boost_phrase: view_opt_boost(self.boost_phrase),
        }
    }
}

/// A named collection of chunks within a dataset; its tag set is
/// propagated onto every member chunk's vector payload.
#[derive(Clone, Debug)]
pub struct ChunkGroup {
    pub id: u128,
    pub dataset_id: u128,
    pub name: String,
    pub tag_set: Option<Vec<Option<String>>>,
}

/// The mathematical value of a group record.
#[verifier::ext_equal]
pub struct ChunkGroupView {
    pub id: u128,
    pub dataset_id: u128,
    pub name: Seq<char>,
    pub tag_set: Option<Seq<Option<Seq<char>>>>,
}

impl View for ChunkGroup {
    type V = ChunkGroupView;

    open spec fn view(&self) -> ChunkGroupView {
        ChunkGroupView {
            id: self.id,
            dataset_id: self.dataset_id,
            name: self.name@,
            tag_set: view_tag_list(self.tag_set),
        }
    }
}

/// Envelope of the group re-tagging job.
#[derive(Clone, Debug)]
pub struct GroupUpdateMessage {
    pub prev_group: ChunkGroup,
    pub group: ChunkGroup,
    pub config: ServerDatasetConfiguration,
    pub attempt_number: u64,
}

/// The mathematical value of a group re-tagging envelope.
#[verifier::ext_equal]
pub struct GroupUpdateMessageView {
    pub prev_group: ChunkGroupView,
    pub group: ChunkGroupView,
    pub config: ServerDatasetConfiguration,
    pub attempt_number: u64,
}

impl View for GroupUpdateMessage {
    type V = GroupUpdateMessageView;

    open spec fn view(&self) -> GroupUpdateMessageView {
        GroupUpdateMessageView {
            prev_group: self.prev_group@,
            group: self.group@,
            config: self.config,
            attempt_number: self.attempt_number,
        }
    }
}

/// Envelope of the dataset delete/clear job.  `empty_dataset` keeps the
/// dataset row and removes only its chunks.
#[derive(Clone, Copy, Debug)]
pub struct DeleteMessage {
    pub dataset_id: u128,
    pub server_config: ServerDatasetConfiguration,
    pub attempt_number: u64,
    pub empty_dataset: bool,
}

/// Relational write queued behind the vector write when the reversed
/// dual-write order is in effect.
#[derive(Clone, Debug)]
pub struct PGInsertQueueMessage {
    pub chunk_metadatas: ChunkData,
    pub dataset_id: u128,
    pub dataset_config: ServerDatasetConfiguration,
    pub attempt_number: u64,
}

/// The mathematical value of a queued relational write.
#[verifier::ext_equal]
pub struct PGInsertQueueMessageView {
    pub chunk_metadatas: ChunkDataView,
    pub dataset_id: u128,
    pub dataset_config: ServerDatasetConfiguration,
    pub attempt_number: u64,
}

impl View for PGInsertQueueMessage {
    type V = PGInsertQueueMessageView;

    open spec fn view(&self) -> PGInsertQueueMessageView {
        PGInsertQueueMessageView {
            chunk_metadatas: self.chunk_metadatas@,
            dataset_id: self.dataset_id,
            dataset_config: self.dataset_config,
            attempt_number: self.attempt_number,
        }
    }
}

/// Projection of a chunk attached to its point for filtered search.
#[derive(Clone, Debug)]
pub struct QdrantPayload {
    pub dataset_id: u128,
    pub group_ids: Vec<u128>,
    pub group_tag_set: Option<Vec<Option<String>>>,
    pub time_stamp: Option<i64>,
    pub location: Option<GeoPoint>,
    pub weight: i64,
    pub num_value: Option<i64>,
    pub tracking_id: Option<String>,
    pub metadata: Option<String>,
}

/// The mathematical value of a search payload.
#[verifier::ext_equal]
pub struct QdrantPayloadView {
    pub dataset_id: u128,
    pub group_ids: Seq<u128>,
    pub group_tag_set: Option<Seq<Option<Seq<char>>>>,
    pub time_stamp: Option<i64>,
    pub location: Option<GeoPoint>,
    pub weight: i64,
    pub num_value: Option<i64>,
    pub tracking_id: Option<Seq<char>>,
    pub metadata: Option<Seq<char>>,
}

impl View for QdrantPayload {
    type V = QdrantPayloadView;

    open spec fn view(&self) -> QdrantPayloadView {
        QdrantPayloadView {
            dataset_id: self.dataset_id,
            group_ids: self.group_ids@,
            group_tag_set: view_tag_list(self.group_tag_set),
            time_stamp: self.time_stamp,
            location: self.location,
            weight: self.weight,
            num_value: self.num_value,
            tracking_id: view_opt_string(self.tracking_id),
            metadata: view_opt_string(self.metadata),
        }
    }
}

/// The search payload a chunk row projects to.
pub open spec fn spec_payload_of(
    m: ChunkMetadataView,
    group_ids: Option<Seq<u128>>,
    dataset_id: Option<u128>,
    group_tag_set: Option<Seq<Option<Seq<char>>>>,
) -> QdrantPayloadView {
    QdrantPayloadView {
        dataset_id: if dataset_id is Some {
            dataset_id->0
        } else {
            m.dataset_id
        },
        group_ids: if group_ids is Some {
            group_ids->0
        } else {
            Seq::empty()
        },
        group_tag_set: group_tag_set,
        time_stamp: m.time_stamp,
        location: m.location,
        weight: m.weight,
        num_value: m.num_value,
        tracking_id: m.tracking_id,
        metadata: m.metadata,
    }
}

impl QdrantPayload {
    /// Derives the search payload of a chunk row.  When `dataset_id` is
    /// given it overrides the row's own dataset.
    pub fn new(
        chunk_metadata: &ChunkMetadata,
        group_ids: Option<Vec<u128>>,
        dataset_id: Option<u128>,
        group_tag_set: Option<Vec<Option<String>>>,
    ) -> (r: QdrantPayload)
        ensures
            r@ == spec_payload_of(
                chunk_metadata@,
                view_opt_vec(group_ids),
                dataset_id,
                view_tag_list(group_tag_set),
            ),
    {
        let ghost expected = spec_payload_of(
            chunk_metadata@,
            view_opt_vec(group_ids),
            dataset_id,
            view_tag_list(group_tag_set),
        );
        let resolved: u128 = match dataset_id {
            Some(d) => d,
            None => chunk_metadata.dataset_id,
        };
        let groups: Vec<u128> = match group_ids {
            Some(g) => g,
            None => Vec::new(),
        };
        let r = QdrantPayload {
            dataset_id: resolved,
            group_ids: groups,
            group_tag_set,
            time_stamp: chunk_metadata.time_stamp,
            location: chunk_metadata.location,
            weight: chunk_metadata.weight,
            num_value: chunk_metadata.num_value,
            tracking_id: crate::dup::clone_opt_string(&chunk_metadata.tracking_id),
            metadata: crate::dup::clone_opt_string(&chunk_metadata.metadata),
        };
        assert(r@ =~= expected);
        r
    }
}

/// A record of the approximate-nearest-neighbour index: the point id,
/// the collection (named after the dense arity), both vectors, and the
/// payload.
#[derive(Clone, Debug)]
pub struct PointData {
    pub point_id: u128,
    pub dense: DenseVector,
    pub sparse: SparseVector,
    pub payload: QdrantPayload,
}

/// The mathematical value of an index record.
#[verifier::ext_equal]
pub struct PointDataView {
    pub point_id: u128,
    pub dense: Seq<i64>,
    pub sparse: Seq<(u32, i64)>,
    pub payload: QdrantPayloadView,
}

impl View for PointData {
    type V = PointDataView;

    open spec fn view(&self) -> PointDataView {
        PointDataView {
            point_id: self.point_id,
            dense: self.dense@,
            sparse: self.sparse@,
            payload: self.payload@,
        }
    }
}

/// Top match returned by the index for a candidate embedding; the score
/// is fixed point in units of `crate::config::SCORE_ONE`.
#[derive(Clone, Copy, Debug, PartialEq, Eq, Structural)]
pub struct SearchResult {
    pub score: u32,
    pub point_id: u128,
}

} // verus!
