use vstd::prelude::*;

verus! {

/// One unit on the fixed-point scale used for similarity scores,
/// distance thresholds and weights: a value of `SCORE_ONE` stands for
/// 1.0.
pub const SCORE_ONE: u32 = 10000;

/// Snapshot of a dataset's configuration that every job carries, so a
/// worker need not re-read it.  Scores and thresholds are fixed-point
/// values in units of `SCORE_ONE`.
#[derive(Clone, Copy, Debug)]
pub struct ServerDatasetConfiguration {
    /// Expected dense-embedding arity of this dataset.
    pub embedding_size: usize,
    /// Collision threshold: a nearest-neighbour score at or above it
    /// makes the new chunk a duplicate of the match.  `SCORE_ONE`
    /// (that is, 1.0) disables the per-message collision path.
    pub duplicate_distance_threshold: u32,
    /// Whether collision detection runs at all.
    pub collisions_enabled: bool,
    /// Whether sparse lexical embeddings are generated; when disabled a
    /// one-element stub sparse vector is used instead.
    pub fulltext_enabled: bool,
    /// A locked dataset refuses deletion.
    pub locked: bool,
}

impl ServerDatasetConfiguration {
    /// Whether a bulk envelope with this configuration must take the
    /// per-message path to preserve collision semantics.
    pub open spec fn spec_collisions_active(&self) -> bool {
        self.duplicate_distance_threshold < SCORE_ONE && self.collisions_enabled
    }

    /// Whether collision detection runs for this dataset.
    pub fn collisions_active(&self) -> (r: bool)
        ensures
            r == self.spec_collisions_active(),
    {
        self.duplicate_distance_threshold < SCORE_ONE && self.collisions_enabled
    }
}

} // verus!
