use metadata_filter::config::{
    default_default_knn_index, default_vector_index_config, EmbeddingFunctionConfiguration,
    EmbeddingFunctionNewConfiguration, HnswSpace, InternalCollectionConfiguration,
    InternalHnswConfiguration, InternalSpannConfiguration, InternalUpdateCollectionConfiguration,
    KnnIndex, UpdateCollectionConfiguration,
    UpdateCollectionConfigurationToInternalUpdateConfigurationError, UpdateHnswConfiguration,
    UpdateSpannConfiguration, UpdateVectorIndexConfiguration, VectorIndexConfiguration,
};
use metadata_filter::errors::ErrorCodes;

#[test]
fn test_update_collection_configuration_with_hnsw() {
    let mut config = InternalCollectionConfiguration {
        vector_index: VectorIndexConfiguration::Hnsw(InternalHnswConfiguration {
            space: HnswSpace::Cosine,
            ..Default::default()
        }),
        embedding_function: Some(EmbeddingFunctionConfiguration::Known(
            EmbeddingFunctionNewConfiguration {
                name: "test".to_string(),
                config: serde_json::Value::Null,
            },
        )),
    };
    let update_config = UpdateCollectionConfiguration {
        hnsw: Some(UpdateHnswConfiguration {
            ef_search: Some(1),
            ..Default::default()
        }),
        spann: None,
        embedding_function: None,
    };
    config.update(&InternalUpdateCollectionConfiguration::try_from(update_config).unwrap());
    assert_eq!(
        config.vector_index,
        VectorIndexConfiguration::Hnsw(InternalHnswConfiguration {
            space: HnswSpace::Cosine,
            ef_search: 1,
            ..Default::default()
        })
    );

    assert_eq!(
        config.embedding_function,
        Some(EmbeddingFunctionConfiguration::Known(
            EmbeddingFunctionNewConfiguration {
                name: "test".to_string(),
                config: serde_json::Value::Null,
            },
        ))
    );
}

#[test]
fn test_update_collection_configuration_with_spann() {
    let mut config = InternalCollectionConfiguration {
        vector_index: VectorIndexConfiguration::Spann(InternalSpannConfiguration {
            space: HnswSpace::Cosine,
            ..Default::default()
        }),
        embedding_function: Some(EmbeddingFunctionConfiguration::Known(
            EmbeddingFunctionNewConfiguration {
                name: "test".to_string(),
                config: serde_json::Value::Null,
            },
        )),
    };
    let update_config = UpdateCollectionConfiguration {
        hnsw: None,
        spann: Some(UpdateSpannConfiguration {
            ef_search: Some(1),
            ..Default::default()
        }),
        embedding_function: None,
    };
    config.update(&InternalUpdateCollectionConfiguration::try_from(update_config).unwrap());
    assert_eq!(
        config.vector_index,
        VectorIndexConfiguration::Spann(InternalSpannConfiguration {
            space: HnswSpace::Cosine,
            ef_search: 1,
            ..Default::default()
        })
    );

    assert_eq!(
        config.embedding_function,
        Some(EmbeddingFunctionConfiguration::Known(
            EmbeddingFunctionNewConfiguration {
                name: "test".to_string(),
                config: serde_json::Value::Null,
            },
        ))
    );
}

#[test]
fn test_update_collection_configuration_with_embedding_function() {
    let mut config = InternalCollectionConfiguration {
        vector_index: VectorIndexConfiguration::Hnsw(InternalHnswConfiguration::default()),
        embedding_function: Some(EmbeddingFunctionConfiguration::Known(
            EmbeddingFunctionNewConfiguration {
                name: "test".to_string(),
                config: serde_json::Value::Null,
            },
        )),
    };
    let emb_fn_config = EmbeddingFunctionNewConfiguration {
        name: "test2".to_string(),
        config: serde_json::Value::Object(serde_json::Map::from_iter([(
            "test".to_string(),
            serde_json::Value::String("test".to_string()),
        )])),
    };
    let update_config = UpdateCollectionConfiguration {
        hnsw: None,
        spann: None,
        embedding_function: Some(EmbeddingFunctionConfiguration::Known(emb_fn_config)),
    };
    config.update(&InternalUpdateCollectionConfiguration::try_from(update_config).unwrap());
    assert_eq!(
        config.embedding_function,
        Some(EmbeddingFunctionConfiguration::Known(
            EmbeddingFunctionNewConfiguration {
                name: "test2".to_string(),
                config: serde_json::Value::Object(serde_json::Map::from_iter([(
                    "test".to_string(),
                    serde_json::Value::String("test".to_string()),
                )])),
            },
        ))
    );
}

#[test]
fn test_update_with_both_kinds_is_rejected() {
    let update_config = UpdateCollectionConfiguration {
        hnsw: Some(UpdateHnswConfiguration::default()),
        spann: Some(UpdateSpannConfiguration::default()),
        embedding_function: None,
    };
    let err = InternalUpdateCollectionConfiguration::try_from(update_config)
        .expect_err("both index kinds must be rejected");
    assert_eq!(
        err,
        UpdateCollectionConfigurationToInternalUpdateConfigurationError::MultipleVectorIndexConfigurations
    );
    assert_eq!(err.code(), ErrorCodes::InvalidArgument);
}

#[test]
fn test_vector_index_update_keeps_kind() {
    let mut index = default_vector_index_config();
    let spann = VectorIndexConfiguration::Spann(InternalSpannConfiguration::default());
    index.update(&spann);
    // converting between kinds is not supported, so nothing changes
    assert_eq!(index, default_vector_index_config());

    let hnsw_new = VectorIndexConfiguration::Hnsw(InternalHnswConfiguration {
        ef_search: 42,
        ..Default::default()
    });
    index.update(&hnsw_new);
    assert_eq!(index, hnsw_new);

    assert!(matches!(default_default_knn_index(), KnnIndex::Hnsw));
}

#[test]
fn test_vector_index_from_conversions() {
    assert_eq!(
        VectorIndexConfiguration::from(InternalHnswConfiguration::default()),
        VectorIndexConfiguration::Hnsw(InternalHnswConfiguration::default())
    );
    assert_eq!(
        VectorIndexConfiguration::from(InternalSpannConfiguration::default()),
        VectorIndexConfiguration::Spann(InternalSpannConfiguration::default())
    );
    assert_eq!(
        UpdateVectorIndexConfiguration::from(UpdateHnswConfiguration::default()),
        UpdateVectorIndexConfiguration::Hnsw(Some(UpdateHnswConfiguration::default()))
    );
    assert_eq!(
        UpdateVectorIndexConfiguration::from(UpdateSpannConfiguration::default()),
        UpdateVectorIndexConfiguration::Spann(Some(UpdateSpannConfiguration::default()))
    );
}

#[test]
fn test_collection_defaults() {
    let h = InternalCollectionConfiguration::default_hnsw();
    assert_eq!(
        h.vector_index,
        VectorIndexConfiguration::Hnsw(InternalHnswConfiguration::default())
    );
    assert!(h.embedding_function.is_none());

    let s = InternalCollectionConfiguration::default_spann();
    assert_eq!(
        s.vector_index,
        VectorIndexConfiguration::Spann(InternalSpannConfiguration::default())
    );
    assert_eq!(s.get_spann_config(), Some(InternalSpannConfiguration::default()));
    assert_eq!(h.get_spann_config(), None);
}
