use vstd::prelude::*;

use crate::errors::ErrorCodes;

verus! {

/// `serde_json::Value` is an arbitrary JSON document; the library carries
/// one through embedding-function configurations without reading it.
#[verifier::external_type_specification]
#[verifier::external_body]
pub struct ExValue(serde_json::Value);

/// Relies on `Clone for serde_json::Value`: the copy equals the original.
pub assume_specification[ <serde_json::Value as Clone>::clone ](v: &serde_json::Value) -> (r:
    serde_json::Value)
    ensures
        r == *v,
;

/// The kind of k-nearest-neighbor index a collection uses.
#[derive(Clone, Copy, PartialEq, Eq, Structural, Debug)]
pub enum KnnIndex {
    Hnsw,
    Spann,
}

/// The index kind a collection gets when it names none.
pub fn default_default_knn_index() -> (r: KnnIndex)
    ensures
        r is Hnsw,
{
    KnnIndex::Hnsw
}

/// The distance space of a vector index.
#[derive(Clone, Copy, PartialEq, Eq, Structural, Debug)]
pub enum HnswSpace {
    L2,
    Cosine,
    Ip,
}

/// The default resize factor, in thousandths (a growth factor of 1.2).
pub const DEFAULT_RESIZE_FACTOR_THOUSANDTHS: u64 = 1200;

/// The resolved parameters of an HNSW index. The resize factor is carried
/// in thousandths, so the configuration stays in integers.
#[derive(Clone, Copy, PartialEq, Eq, Structural, Debug)]
pub struct InternalHnswConfiguration {
    pub space: HnswSpace,
    pub ef_construction: usize,
    pub ef_search: usize,
    pub max_neighbors: usize,
    pub num_threads: usize,
    pub resize_factor: u64,
    pub sync_threshold: usize,
    pub batch_size: usize,
}

/// The parameters an HNSW index starts from when none are given.
pub open spec fn default_hnsw_config() -> InternalHnswConfiguration {
    InternalHnswConfiguration {
        space: HnswSpace::L2,
        ef_construction: 100,
        ef_search: 100,
        max_neighbors: 16,
        num_threads: 16,
        resize_factor: DEFAULT_RESIZE_FACTOR_THOUSANDTHS as u64,
        sync_threshold: 1000,
        batch_size: 100,
    }
}

impl Default for InternalHnswConfiguration {
    fn default() -> (r: Self)
        ensures
            r == default_hnsw_config(),
    {
        InternalHnswConfiguration {
            space: HnswSpace::L2,
            ef_construction: 100,
            ef_search: 100,
            max_neighbors: 16,
            num_threads: 16,
            resize_factor: DEFAULT_RESIZE_FACTOR_THOUSANDTHS,
            sync_threshold: 1000,
            batch_size: 100,
        }
    }
}

/// The resolved parameters of a SPANN index.
#[derive(Clone, Copy, PartialEq, Eq, Structural, Debug)]
pub struct InternalSpannConfiguration {
    pub space: HnswSpace,
    pub search_nprobe: u32,
    pub write_nprobe: u32,
    pub ef_construction: usize,
    pub ef_search: usize,
    pub max_neighbors: usize,
    pub reassign_neighbor_count: u32,
    pub split_threshold: u32,
    pub merge_threshold: u32,
}

/// The parameters a SPANN index starts from when none are given.
pub open spec fn default_spann_config() -> InternalSpannConfiguration {
    InternalSpannConfiguration {
        space: HnswSpace::L2,
        search_nprobe: 64,
        write_nprobe: 32,
        ef_construction: 200,
        ef_search: 200,
        max_neighbors: 16,
        reassign_neighbor_count: 64,
        split_threshold: 200,
        merge_threshold: 100,
    }
}

impl Default for InternalSpannConfiguration {
    fn default() -> (r: Self)
        ensures
            r == default_spann_config(),
    {
        InternalSpannConfiguration {
            space: HnswSpace::L2,
            search_nprobe: 64,
            write_nprobe: 32,
            ef_construction: 200,
            ef_search: 200,
            max_neighbors: 16,
            reassign_neighbor_count: 64,
            split_threshold: 200,
            merge_threshold: 100,
        }
    }
}

/// The vector index of a collection: one of the two kinds, resolved.
#[derive(Clone, Copy, PartialEq, Eq, Structural, Debug)]
pub enum VectorIndexConfiguration {
    Hnsw(InternalHnswConfiguration),
    Spann(InternalSpannConfiguration),
}

/// Replacing a vector index in place: a configuration of the same kind
/// replaces the current one; converting between kinds is not supported, so
/// a mismatched kind changes nothing.
pub open spec fn vector_index_updated(
    cur: VectorIndexConfiguration,
    new: VectorIndexConfiguration,
) -> VectorIndexConfiguration {
    match (cur, new) {
        (VectorIndexConfiguration::Hnsw(_), VectorIndexConfiguration::Hnsw(n)) =>
            VectorIndexConfiguration::Hnsw(n),
        (VectorIndexConfiguration::Spann(_), VectorIndexConfiguration::Spann(n)) =>
            VectorIndexConfiguration::Spann(n),
        _ => cur,
    }
}

impl VectorIndexConfiguration {
    /// Replace this configuration by one of the same kind; a mismatched
    /// kind changes nothing.
    pub fn update(&mut self, vector_index: &VectorIndexConfiguration)
        ensures
            *final(self) == vector_index_updated(*old(self), *vector_index),
    {
        match (&*self, vector_index) {
            (VectorIndexConfiguration::Hnsw(_), VectorIndexConfiguration::Hnsw(hnsw_new)) => {
                *self = VectorIndexConfiguration::Hnsw(*hnsw_new);
            },
            (VectorIndexConfiguration::Spann(_), VectorIndexConfiguration::Spann(spann_new)) => {
                *self = VectorIndexConfiguration::Spann(*spann_new);
            },
            _ => {
                // converting between index kinds is not supported
            },
        }
    }
}

impl From<InternalHnswConfiguration> for VectorIndexConfiguration {
    fn from(config: InternalHnswConfiguration) -> (r: Self) {
        VectorIndexConfiguration::Hnsw(config)
    }
}

impl vstd::std_specs::convert::FromSpecImpl<InternalHnswConfiguration> for VectorIndexConfiguration {
    open spec fn obeys_from_spec() -> bool {
        true
    }

    open spec fn from_spec(config: InternalHnswConfiguration) -> Self {
        VectorIndexConfiguration::Hnsw(config)
    }
}

impl From<InternalSpannConfiguration> for VectorIndexConfiguration {
    fn from(config: InternalSpannConfiguration) -> (r: Self) {
        VectorIndexConfiguration::Spann(config)
    }
}

impl vstd::std_specs::convert::FromSpecImpl<InternalSpannConfiguration> for VectorIndexConfiguration {
    open spec fn obeys_from_spec() -> bool {
        true
    }

    open spec fn from_spec(config: InternalSpannConfiguration) -> Self {
        VectorIndexConfiguration::Spann(config)
    }
}

/// The vector index a collection gets when its configuration names none.
pub fn default_vector_index_config() -> (r: VectorIndexConfiguration)
    ensures
        r == VectorIndexConfiguration::Hnsw(default_hnsw_config()),
{
    VectorIndexConfiguration::Hnsw(InternalHnswConfiguration::default())
}

/// How a collection embeds documents: the legacy behavior, or a named
/// function with its own JSON configuration.
#[derive(PartialEq, Debug)]
pub enum EmbeddingFunctionConfiguration {
    Legacy,
    Known(EmbeddingFunctionNewConfiguration),
}

/// A named embedding function and its configuration document.
#[derive(PartialEq, Debug)]
pub struct EmbeddingFunctionNewConfiguration {
    pub name: String,
    pub config: serde_json::Value,
}

impl EmbeddingFunctionConfiguration {
    /// A copy equal to the original.
    pub fn duplicate(&self) -> (r: EmbeddingFunctionConfiguration)
        ensures
            r == *self,
    {
        match self {
            EmbeddingFunctionConfiguration::Legacy => EmbeddingFunctionConfiguration::Legacy,
            EmbeddingFunctionConfiguration::Known(c) => EmbeddingFunctionConfiguration::Known(
                EmbeddingFunctionNewConfiguration { name: c.name.clone(), config: c.config.clone() },
            ),
        }
    }
}

/// A partial update of an HNSW configuration: absent fields keep their
/// current value.
#[derive(Clone, Copy, PartialEq, Eq, Structural, Debug)]
pub struct UpdateHnswConfiguration {
    pub ef_search: Option<usize>,
    pub max_neighbors: Option<usize>,
    pub num_threads: Option<usize>,
    pub resize_factor: Option<u64>,
    pub sync_threshold: Option<usize>,
    pub batch_size: Option<usize>,
}

impl Default for UpdateHnswConfiguration {
    fn default() -> (r: Self)
        ensures
            r == (UpdateHnswConfiguration {
                ef_search: None,
                max_neighbors: None,
                num_threads: None,
                resize_factor: None,
                sync_threshold: None,
                batch_size: None,
            }),
    {
        UpdateHnswConfiguration {
            ef_search: None,
            max_neighbors: None,
            num_threads: None,
            resize_factor: None,
            sync_threshold: None,
            batch_size: None,
        }
    }
}

/// A partial update of a SPANN configuration: absent fields keep their
/// current value.
#[derive(Clone, Copy, PartialEq, Eq, Structural, Debug)]
pub struct UpdateSpannConfiguration {
    pub search_nprobe: Option<u32>,
    pub ef_search: Option<usize>,
}

impl Default for UpdateSpannConfiguration {
    fn default() -> (r: Self)
        ensures
            r == (UpdateSpannConfiguration { search_nprobe: None, ef_search: None }),
    {
        UpdateSpannConfiguration { search_nprobe: None, ef_search: None }
    }
}

/// A partial update of the vector index, by kind.
#[derive(Clone, Copy, PartialEq, Eq, Structural, Debug)]
pub enum UpdateVectorIndexConfiguration {
    Hnsw(Option<UpdateHnswConfiguration>),
    Spann(Option<UpdateSpannConfiguration>),
}

impl From<UpdateHnswConfiguration> for UpdateVectorIndexConfiguration {
    fn from(config: UpdateHnswConfiguration) -> (r: Self) {
        UpdateVectorIndexConfiguration::Hnsw(Some(config))
    }
}

impl vstd::std_specs::convert::FromSpecImpl<UpdateHnswConfiguration> for UpdateVectorIndexConfiguration {
    open spec fn obeys_from_spec() -> bool {
        true
    }

    open spec fn from_spec(config: UpdateHnswConfiguration) -> Self {
        UpdateVectorIndexConfiguration::Hnsw(Some(config))
    }
}

impl From<UpdateSpannConfiguration> for UpdateVectorIndexConfiguration {
    fn from(config: UpdateSpannConfiguration) -> (r: Self) {
        UpdateVectorIndexConfiguration::Spann(Some(config))
    }
}

impl vstd::std_specs::convert::FromSpecImpl<UpdateSpannConfiguration> for UpdateVectorIndexConfiguration {
    open spec fn obeys_from_spec() -> bool {
        true
    }

    open spec fn from_spec(config: UpdateSpannConfiguration) -> Self {
        UpdateVectorIndexConfiguration::Spann(Some(config))
    }
}

/// An HNSW configuration with a partial update applied.
pub open spec fn hnsw_updated(
    c: InternalHnswConfiguration,
    u: UpdateHnswConfiguration,
) -> InternalHnswConfiguration {
    InternalHnswConfiguration {
        space: c.space,
        ef_construction: c.ef_construction,
        ef_search: if u.ef_search is Some {
            u.ef_search->0
        } else {
            c.ef_search
        },
        max_neighbors: if u.max_neighbors is Some {
            u.max_neighbors->0
        } else {
            c.max_neighbors
        },
        num_threads: if u.num_threads is Some {
            u.num_threads->0
        } else {
            c.num_threads
        },
        resize_factor: if u.resize_factor is Some {
            u.resize_factor->0
        } else {
            c.resize_factor
        },
        sync_threshold: if u.sync_threshold is Some {
            u.sync_threshold->0
        } else {
            c.sync_threshold
        },
        batch_size: if u.batch_size is Some {
            u.batch_size->0
        } else {
            c.batch_size
        },
    }
}

/// A SPANN configuration with a partial update applied.
pub open spec fn spann_updated(
    c: InternalSpannConfiguration,
    u: UpdateSpannConfiguration,
) -> InternalSpannConfiguration {
    InternalSpannConfiguration {
        search_nprobe: if u.search_nprobe is Some {
            u.search_nprobe->0
        } else {
            c.search_nprobe
        },
        ef_search: if u.ef_search is Some {
            u.ef_search->0
        } else {
            c.ef_search
        },
        ..c
    }
}

/// The resolved configuration of a collection: its vector index and its
/// embedding function.
#[derive(PartialEq, Debug)]
pub struct InternalCollectionConfiguration {
    pub vector_index: VectorIndexConfiguration,
    pub embedding_function: Option<EmbeddingFunctionConfiguration>,
}

/// A partial update of a collection configuration.
#[derive(PartialEq, Debug)]
pub struct InternalUpdateCollectionConfiguration {
    pub vector_index: Option<UpdateVectorIndexConfiguration>,
    pub embedding_function: Option<EmbeddingFunctionConfiguration>,
}

/// A collection configuration with a partial update applied: vector-index
/// fields merge kind by kind, and a given embedding function replaces the
/// current one whole.
pub open spec fn collection_updated(
    c: InternalCollectionConfiguration,
    u: InternalUpdateCollectionConfiguration,
) -> InternalCollectionConfiguration {
    InternalCollectionConfiguration {
        vector_index: match u.vector_index {
            Some(UpdateVectorIndexConfiguration::Hnsw(hc)) => match (c.vector_index, hc) {
                (VectorIndexConfiguration::Hnsw(cur), Some(uc)) => VectorIndexConfiguration::Hnsw(
                    hnsw_updated(cur, uc),
                ),
                _ => c.vector_index,
            },
            Some(UpdateVectorIndexConfiguration::Spann(sc)) => match (c.vector_index, sc) {
                (VectorIndexConfiguration::Spann(cur), Some(uc)) => VectorIndexConfiguration::Spann(
                    spann_updated(cur, uc),
                ),
                _ => c.vector_index,
            },
            None => c.vector_index,
        },
        embedding_function: match u.embedding_function {
            Some(e) => Some(e),
            None => c.embedding_function,
        },
    }
}

impl InternalCollectionConfiguration {
    /// The default configuration with an HNSW index.
    pub fn default_hnsw() -> (r: Self)
        ensures
            r.vector_index == VectorIndexConfiguration::Hnsw(default_hnsw_config()),
            r.embedding_function is None,
    {
        InternalCollectionConfiguration {
            vector_index: VectorIndexConfiguration::Hnsw(InternalHnswConfiguration::default()),
            embedding_function: None,
        }
    }

    /// The default configuration with a SPANN index.
    pub fn default_spann() -> (r: Self)
        ensures
            r.vector_index == VectorIndexConfiguration::Spann(default_spann_config()),
            r.embedding_function is None,
    {
        InternalCollectionConfiguration {
            vector_index: VectorIndexConfiguration::Spann(InternalSpannConfiguration::default()),
            embedding_function: None,
        }
    }

    /// The SPANN parameters, when the collection uses a SPANN index.
    pub fn get_spann_config(&self) -> (r: Option<InternalSpannConfiguration>)
        ensures
            r == (match self.vector_index {
                VectorIndexConfiguration::Spann(config) => Some(config),
                _ => None::<InternalSpannConfiguration>,
            }),
    {
        match &self.vector_index {
            VectorIndexConfiguration::Spann(config) => Some(*config),
            _ => None,
        }
    }

    /// Apply a partial update: vector-index fields merge kind by kind, and
    /// a given embedding function replaces the current one whole.
    pub fn update(&mut self, configuration: &InternalUpdateCollectionConfiguration)
        ensures
            *final(self) == collection_updated(*old(self), *configuration),
    {
        match &configuration.vector_index {
            Some(UpdateVectorIndexConfiguration::Hnsw(hnsw_config)) => {
                match (&self.vector_index, hnsw_config) {
                    (VectorIndexConfiguration::Hnsw(current_config), Some(update_config)) => {
                        let mut merged = *current_config;
                        match update_config.ef_search {
                            Some(ef_search) => {
                                merged.ef_search = ef_search;
                            },
                            None => {},
                        }
                        match update_config.max_neighbors {
                            Some(max_neighbors) => {
                                merged.max_neighbors = max_neighbors;
                            },
                            None => {},
                        }
                        match update_config.num_threads {
                            Some(num_threads) => {
                                merged.num_threads = num_threads;
                            },
                            None => {},
                        }
                        match update_config.resize_factor {
                            Some(resize_factor) => {
                                merged.resize_factor = resize_factor;
                            },
                            None => {},
                        }
                        match update_config.sync_threshold {
                            Some(sync_threshold) => {
                                merged.sync_threshold = sync_threshold;
                            },
                            None => {},
                        }
                        match update_config.batch_size {
                            Some(batch_size) => {
                                merged.batch_size = batch_size;
                            },
                            None => {},
                        }
                        self.vector_index = VectorIndexConfiguration::Hnsw(merged);
                    },
                    _ => {},
                }
            },
            Some(UpdateVectorIndexConfiguration::Spann(spann_config)) => {
                match (&self.vector_index, spann_config) {
                    (VectorIndexConfiguration::Spann(current_config), Some(update_config)) => {
                        let mut merged = *current_config;
                        match update_config.search_nprobe {
                            Some(search_nprobe) => {
                                merged.search_nprobe = search_nprobe;
                            },
                            None => {},
                        }
                        match update_config.ef_search {
                            Some(ef_search) => {
                                merged.ef_search = ef_search;
                            },
                            None => {},
                        }
                        self.vector_index = VectorIndexConfiguration::Spann(merged);
                    },
                    _ => {},
                }
            },
            None => {},
        }
        match &configuration.embedding_function {
            Some(embedding_function) => {
                self.embedding_function = Some(embedding_function.duplicate());
            },
            None => {},
        }
    }
}

/// Why a collection configuration cannot be resolved: both index kinds
/// given, or unusable legacy index parameters.
#[derive(PartialEq, Debug)]
pub enum CollectionConfigurationToInternalConfigurationError {
    MultipleVectorIndexConfigurations,
    HnswParametersFromSegmentError(String),
}

impl CollectionConfigurationToInternalConfigurationError {
    pub fn code(&self) -> (r: ErrorCodes)
        ensures
            r is InvalidArgument,
    {
        match self {
            Self::MultipleVectorIndexConfigurations => ErrorCodes::InvalidArgument,
            Self::HnswParametersFromSegmentError(_) => ErrorCodes::InvalidArgument,
        }
    }
}

/// Why a configuration update cannot be resolved: both index kinds given.
#[derive(Clone, Copy, PartialEq, Eq, Structural, Debug)]
pub enum UpdateCollectionConfigurationToInternalConfigurationError {
    MultipleVectorIndexConfigurations,
}

impl UpdateCollectionConfigurationToInternalConfigurationError {
    pub fn code(&self) -> (r: ErrorCodes)
        ensures
            r is InvalidArgument,
    {
        match self {
            Self::MultipleVectorIndexConfigurations => ErrorCodes::InvalidArgument,
        }
    }
}

/// Why an update request cannot become an internal update: both index
/// kinds given.
#[derive(Clone, Copy, PartialEq, Eq, Structural, Debug)]
pub enum UpdateCollectionConfigurationToInternalUpdateConfigurationError {
    MultipleVectorIndexConfigurations,
}

impl UpdateCollectionConfigurationToInternalUpdateConfigurationError {
    pub fn code(&self) -> (r: ErrorCodes)
        ensures
            r is InvalidArgument,
    {
        match self {
            Self::MultipleVectorIndexConfigurations => ErrorCodes::InvalidArgument,
        }
    }
}

/// An update request as a client states it: at most one index kind, and
/// optionally a new embedding function.
#[derive(PartialEq, Debug)]
pub struct UpdateCollectionConfiguration {
    pub hnsw: Option<UpdateHnswConfiguration>,
    pub spann: Option<UpdateSpannConfiguration>,
    pub embedding_function: Option<EmbeddingFunctionConfiguration>,
}

/// The internal update an update request resolves to, when it names at
/// most one index kind.
pub open spec fn update_config_resolved(
    value: UpdateCollectionConfiguration,
) -> InternalUpdateCollectionConfiguration {
    match (value.hnsw, value.spann) {
        (Some(h), None) => InternalUpdateCollectionConfiguration {
            vector_index: Some(UpdateVectorIndexConfiguration::Hnsw(Some(h))),
            embedding_function: value.embedding_function,
        },
        (None, Some(s)) => InternalUpdateCollectionConfiguration {
            vector_index: Some(UpdateVectorIndexConfiguration::Spann(Some(s))),
            embedding_function: value.embedding_function,
        },
        _ => InternalUpdateCollectionConfiguration {
            vector_index: None,
            embedding_function: value.embedding_function,
        },
    }
}

impl InternalUpdateCollectionConfiguration {
    /// Resolve an update request: rejected exactly when it names both
    /// index kinds.
    pub fn try_from(value: UpdateCollectionConfiguration) -> (r: Result<
        Self,
        UpdateCollectionConfigurationToInternalUpdateConfigurationError,
    >)
        ensures
            (r is Ok) == !(value.hnsw is Some && value.spann is Some),
            r is Ok ==> r.unwrap() == update_config_resolved(value),
    {
        match (value.hnsw, value.spann) {
            (Some(_), Some(_)) => Err(
                UpdateCollectionConfigurationToInternalUpdateConfigurationError::MultipleVectorIndexConfigurations,
            ),
            (Some(hnsw), None) => Ok(
                InternalUpdateCollectionConfiguration {
                    vector_index: Some(UpdateVectorIndexConfiguration::Hnsw(Some(hnsw))),
                    embedding_function: value.embedding_function,
                },
            ),
            (None, Some(spann)) => Ok(
                InternalUpdateCollectionConfiguration {
                    vector_index: Some(UpdateVectorIndexConfiguration::Spann(Some(spann))),
                    embedding_function: value.embedding_function,
                },
            ),
            (None, None) => Ok(
                InternalUpdateCollectionConfiguration {
                    vector_index: None,
                    embedding_function: value.embedding_function,
                },
            ),
        }
    }
}

} // verus!
