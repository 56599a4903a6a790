use slatehub::{EmbeddingError, EmbeddingService};

/// A stand-in model: each text's vector is its length and its first byte.
fn fake_infer(_model: &u32, texts: Vec<String>) -> Result<Vec<Vec<u64>>, String> {
    Ok(texts
        .iter()
        .map(|t| vec![t.len() as u64, t.bytes().next().unwrap_or(0) as u64])
        .collect())
}

#[test]
fn generation_before_initialization_fails() {
    let service: EmbeddingService<u32> = EmbeddingService::new();
    assert!(!service.is_initialized());
    let batch = service.embed_batch(vec!["a".to_string()], fake_infer);
    assert!(matches!(batch, Err(EmbeddingError::NotInitialized)));
    let one = service.embed_one("a".to_string(), fake_infer);
    assert!(matches!(one, Err(EmbeddingError::NotInitialized)));
    let empty = service.embed_batch(vec![], fake_infer);
    assert!(matches!(empty, Err(EmbeddingError::NotInitialized)));
}

#[test]
fn batch_keeps_count_and_order() {
    let mut service = EmbeddingService::new();
    service.initialize(7u32);
    assert!(service.is_initialized());
    let texts = vec!["bb".to_string(), "a".to_string(), "cccc".to_string()];
    let vectors = service.embed_batch(texts, fake_infer).expect("model succeeds");
    assert_eq!(vectors, vec![vec![2, 98], vec![1, 97], vec![4, 99]]);
}

#[test]
fn empty_batch_is_empty_without_calling_the_model() {
    let mut service = EmbeddingService::new();
    service.initialize(7u32);
    let vectors = service
        .embed_batch(vec![], |_m: &u32, _t: Vec<String>| -> Result<Vec<Vec<u64>>, String> {
            panic!("the model must not run on an empty batch")
        })
        .expect("empty batch succeeds");
    assert!(vectors.is_empty());
}

#[test]
fn single_embedding_is_a_batch_of_one() {
    let mut service = EmbeddingService::new();
    service.initialize(1u32);
    let v = service.embed_one("hello".to_string(), fake_infer).expect("model succeeds");
    assert_eq!(v, vec![5, 104]);
}

#[test]
fn model_failure_fails_the_whole_batch() {
    let mut service = EmbeddingService::new();
    service.initialize(1u32);
    let r = service.embed_batch(vec!["a".to_string(), "b".to_string()], |_m: &u32, _t: Vec<String>| {
        Err::<Vec<Vec<u64>>, String>("out of memory".to_string())
    });
    match r {
        Err(EmbeddingError::Inference(m)) => assert_eq!(m, "out of memory"),
        other => panic!("expected an inference failure, got {:?}", other),
    }
}

#[test]
fn short_output_is_an_inference_failure() {
    let mut service = EmbeddingService::new();
    service.initialize(1u32);
    let r = service.embed_batch(vec!["a".to_string(), "b".to_string()], |_m: &u32, _t: Vec<String>| {
        Ok::<Vec<Vec<u64>>, String>(vec![vec![1]])
    });
    assert!(matches!(r, Err(EmbeddingError::Inference(_))));
    let one = service.embed_one("a".to_string(), |_m: &u32, _t: Vec<String>| {
        Ok::<Vec<Vec<u64>>, String>(vec![])
    });
    assert!(matches!(one, Err(EmbeddingError::Inference(_))));
}
