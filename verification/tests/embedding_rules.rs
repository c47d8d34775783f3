use querysense::embedding::{
    chunk_requests, classify_status, pack_vector, persistable, single_embedding, EmbeddingError,
    EmbeddingObject, EncodingFormat,
    ProviderReply, RequestBody, RetryPolicy, RetryStep, SyncCounters, CHUNK_SIZE, DIMENSIONS,
    MAX_RETRIES, MODEL, PARALLELISM,
};

fn rows(n: u64) -> Vec<(u64, String)> {
    (1..=n).map(|i| (i * 10, format!("text {}", i))).collect()
}

#[test]
fn defaults_of_the_pipeline() {
    assert_eq!(CHUNK_SIZE, 2048);
    assert_eq!(PARALLELISM, 5);
    assert_eq!(MAX_RETRIES, 3);
    assert_eq!(DIMENSIONS, 1536);
    assert_eq!(MODEL, "text-embedding-3-small");
}

#[test]
fn chunks_are_contiguous_and_keep_order() {
    let chunks = chunk_requests(&rows(5), 2);
    assert_eq!(chunks.len(), 3);
    assert_eq!(chunks[0].indices, vec![10, 20]);
    assert_eq!(chunks[1].indices, vec![30, 40]);
    assert_eq!(chunks[2].indices, vec![50]);
    assert_eq!(chunks[0].input, vec!["text 1".to_string(), "text 2".to_string()]);
    assert_eq!(chunks[2].input, vec!["text 5".to_string()]);
}

#[test]
fn chunks_of_edge_sizes() {
    assert!(chunk_requests(&rows(0), 3).is_empty());
    assert_eq!(chunk_requests(&rows(3), 3).len(), 1);
    assert_eq!(chunk_requests(&rows(4), 3).len(), 2);
    assert_eq!(chunk_requests(&rows(3), 1).len(), 3);
    let one = chunk_requests(&rows(3), CHUNK_SIZE);
    assert_eq!(one.len(), 1);
    assert_eq!(one[0].indices, vec![10, 20, 30]);
    let big = chunk_requests(&rows(5000), CHUNK_SIZE);
    assert_eq!(big.len(), 3);
    assert_eq!(big[0].indices.len(), 2048);
    assert_eq!(big[1].indices.len(), 2048);
    assert_eq!(big[2].indices.len(), 904);
    assert_eq!(big[2].indices[0], 40970);
}

#[test]
fn request_body_names_model_format_and_dimension() {
    let body = RequestBody::new(vec!["a".to_string(), "b".to_string()]);
    assert_eq!(body.input, vec!["a".to_string(), "b".to_string()]);
    assert_eq!(body.model, "text-embedding-3-small");
    assert_eq!(body.encoding_format, Some(EncodingFormat::Float));
    assert_eq!(body.dimensions, Some(1536));
    assert_eq!(EncodingFormat::Float.wire_name(), "float");
    assert_eq!(EncodingFormat::Base64.wire_name(), "base64");
}

#[test]
fn statuses_are_sorted() {
    assert_eq!(classify_status(200), ProviderReply::Success);
    assert_eq!(classify_status(204), ProviderReply::Success);
    assert_eq!(classify_status(299), ProviderReply::Success);
    assert_eq!(classify_status(429), ProviderReply::RateLimited);
    assert_eq!(classify_status(199), ProviderReply::Failed);
    assert_eq!(classify_status(300), ProviderReply::Failed);
    assert_eq!(classify_status(401), ProviderReply::Failed);
    assert_eq!(classify_status(500), ProviderReply::Failed);
}

#[test]
fn rate_limited_twice_then_success() {
    let policy = RetryPolicy::new(3, 2).unwrap();
    let mut waits = Vec::new();
    let mut calls = 0;
    let replies = [ProviderReply::RateLimited, ProviderReply::RateLimited, ProviderReply::Success];
    let mut step = policy.first();
    let mut finished = false;
    while let RetryStep::Send { attempt, wait_ms } = step {
        waits.push(wait_ms);
        let reply = replies[calls];
        calls += 1;
        step = policy.next(attempt, reply);
        if step == RetryStep::Finish {
            finished = true;
        }
    }
    assert!(finished);
    assert_eq!(calls, 3);
    assert_eq!(waits, vec![0, 1000, 2000]);
}

#[test]
fn waits_grow_as_powers_of_the_base() {
    let policy = RetryPolicy::new(5, 5).unwrap();
    assert_eq!(policy.wait_ms(0), 0);
    assert_eq!(policy.wait_ms(1), 1000);
    assert_eq!(policy.wait_ms(2), 5000);
    assert_eq!(policy.wait_ms(3), 25000);
    assert_eq!(policy.wait_ms(4), 125000);
    assert_eq!(policy.wait_ms(5), 625000);
    let flat = RetryPolicy::new(3, 1).unwrap();
    assert_eq!(flat.wait_ms(3), 1000);
    let zero = RetryPolicy::new(3, 0).unwrap();
    assert_eq!(zero.wait_ms(1), 1000);
    assert_eq!(zero.wait_ms(2), 0);
    assert_eq!(zero.wait_ms(3), 0);
}

#[test]
fn a_chunk_is_sent_at_most_once_more_than_there_are_retries() {
    for max in [0u32, 1, 3, 6] {
        let policy = RetryPolicy::new(max, 2).unwrap();
        let mut calls = 0u32;
        let mut step = policy.first();
        while let RetryStep::Send { attempt, .. } = step {
            calls += 1;
            step = policy.next(attempt, ProviderReply::RateLimited);
        }
        assert_eq!(calls, max + 1);
        assert_eq!(step, RetryStep::GiveUp(EmbeddingError::MaxRetriesExceeded));
    }
}

#[test]
fn any_other_failure_drops_the_chunk_at_once() {
    let policy = RetryPolicy::new(MAX_RETRIES, 5).unwrap();
    assert_eq!(
        policy.next(0, ProviderReply::Failed),
        RetryStep::GiveUp(EmbeddingError::RequestError)
    );
    assert_eq!(policy.next(2, ProviderReply::Success), RetryStep::Finish);
    assert_eq!(
        policy.next(3, ProviderReply::RateLimited),
        RetryStep::GiveUp(EmbeddingError::MaxRetriesExceeded)
    );
    assert_eq!(
        policy.next(2, ProviderReply::RateLimited),
        RetryStep::Send { attempt: 3, wait_ms: 25000 }
    );
}

#[test]
fn a_policy_whose_waits_overflow_is_refused() {
    assert!(RetryPolicy::new(3, u64::MAX).is_none());
    assert!(RetryPolicy::new(1, u64::MAX).is_some());
    assert!(RetryPolicy::new(2, u64::MAX / 1000).is_some());
    assert!(RetryPolicy::new(2, u64::MAX / 1000 + 1).is_none());
    assert!(RetryPolicy::new(100, 2).is_none());
    assert!(RetryPolicy::new(55, 2).is_some());
    assert!(RetryPolicy::new(56, 2).is_none());
    assert!(RetryPolicy::new(u32::MAX, 1).is_some());
    assert!(RetryPolicy::new(u32::MAX, 0).is_some());
    assert!(RetryPolicy::new(0, u64::MAX).is_some());
}

#[test]
fn error_messages() {
    assert_eq!(EmbeddingError::RateLimit.message(), "Rate limit excecido");
    assert_eq!(
        EmbeddingError::MaxRetriesExceeded.message(),
        "Maximo número de intentos excedido"
    );
    assert_eq!(EmbeddingError::RequestError.message(), "Request falló");
    assert_eq!(
        EmbeddingError::DimensionMismatch.message(),
        "La dimensión del embedding no coincide"
    );
    assert_eq!(
        EmbeddingError::EmptyResponse.message(),
        "No se encontró un embedding en la respuesta"
    );
}

fn object(index: Option<usize>, first: u32) -> EmbeddingObject {
    EmbeddingObject { index, embedding: vec![first, 0] }
}

#[test]
fn vectors_are_put_in_the_order_of_the_inputs() {
    let objects = vec![object(Some(2), 30), object(Some(0), 10), object(Some(1), 20)];
    assert_eq!(
        EmbeddingObject::embeddings_iter(&objects),
        vec![vec![10, 0], vec![20, 0], vec![30, 0]]
    );
    let in_order = vec![object(Some(0), 1), object(Some(1), 2)];
    assert_eq!(EmbeddingObject::embeddings_iter(&in_order), vec![vec![1, 0], vec![2, 0]]);
    assert!(EmbeddingObject::embeddings_iter(&Vec::new()).is_empty());
}

#[test]
fn vectors_stay_as_they_came_where_an_input_is_not_named() {
    let unnamed = vec![object(None, 30), object(None, 10)];
    assert_eq!(EmbeddingObject::embeddings_iter(&unnamed), vec![vec![30, 0], vec![10, 0]]);
    let partly = vec![object(Some(1), 30), object(None, 10)];
    assert_eq!(EmbeddingObject::embeddings_iter(&partly), vec![vec![30, 0], vec![10, 0]]);
    let twice = vec![object(Some(1), 30), object(Some(1), 10)];
    assert_eq!(EmbeddingObject::embeddings_iter(&twice), vec![vec![30, 0], vec![10, 0]]);
    let beyond = vec![object(Some(0), 30), object(Some(7), 10)];
    assert_eq!(EmbeddingObject::embeddings_iter(&beyond), vec![vec![30, 0], vec![10, 0]]);
}

#[test]
fn the_answer_for_one_text_is_the_first_vector() {
    let objects = vec![object(Some(1), 30), object(Some(0), 10)];
    assert_eq!(single_embedding(ProviderReply::Success, &objects), Ok(vec![10, 0]));
    assert_eq!(single_embedding(ProviderReply::Success, &vec![object(None, 5)]), Ok(vec![5, 0]));
    assert_eq!(
        single_embedding(ProviderReply::Success, &Vec::new()),
        Err(EmbeddingError::EmptyResponse)
    );
    assert_eq!(
        single_embedding(ProviderReply::RateLimited, &objects),
        Err(EmbeddingError::RequestError)
    );
    assert_eq!(
        single_embedding(ProviderReply::Failed, &Vec::new()),
        Err(EmbeddingError::RequestError)
    );
}

#[test]
fn vectors_are_packed_little_endian() {
    let bits: Vec<u32> = vec![1.0f32.to_bits(), 0.0f32.to_bits(), (-2.5f32).to_bits()];
    let bytes = pack_vector(&bits);
    assert_eq!(bytes.len(), 12);
    assert_eq!(bytes, vec![0, 0, 0x80, 0x3f, 0, 0, 0, 0, 0, 0, 0x20, 0xc0]);
    let mut expected = Vec::new();
    for x in [1.0f32, 0.0, -2.5] {
        expected.extend_from_slice(&x.to_le_bytes());
    }
    assert_eq!(bytes, expected);
    assert!(pack_vector(&Vec::new()).is_empty());
    assert_eq!(pack_vector(&vec![0x04030201]), vec![1, 2, 3, 4]);
}

#[test]
fn every_persisted_row_has_four_bytes_per_dimension() {
    let indices = vec![7u64, 8, 9];
    let vectors = vec![vec![1u32, 2, 3], vec![4, 5, 6], vec![7, 8, 9]];
    let rows = persistable(&indices, &vectors, 3).unwrap();
    assert_eq!(rows.len(), 3);
    for (i, row) in rows.iter().enumerate() {
        assert_eq!(row.row_id, indices[i]);
        assert_eq!(row.payload.len(), 3 * 4);
        assert_eq!(row.payload, pack_vector(&vectors[i]));
    }
    assert_eq!(rows[1].payload, vec![4, 0, 0, 0, 5, 0, 0, 0, 6, 0, 0, 0]);
}

#[test]
fn a_vector_of_another_dimension_fails_the_chunk() {
    let indices = vec![7u64, 8];
    let vectors = vec![vec![1u32, 2, 3], vec![4, 5]];
    assert_eq!(persistable(&indices, &vectors, 3).unwrap_err(), EmbeddingError::DimensionMismatch);
    assert_eq!(persistable(&indices, &vectors, 2).unwrap_err(), EmbeddingError::DimensionMismatch);
}

#[test]
fn ids_and_vectors_are_paired_as_far_as_both_go() {
    let vectors = vec![vec![1u32], vec![2], vec![3, 3]];
    let rows = persistable(&vec![1u64, 2], &vectors, 1).unwrap();
    assert_eq!(rows.len(), 2);
    let rows = persistable(&vec![1u64, 2, 3, 4], &vectors[..2].to_vec(), 1).unwrap();
    assert_eq!(rows.len(), 2);
    assert_eq!(rows[1].row_id, 2);
    assert!(persistable(&Vec::new(), &vectors, 9).unwrap().is_empty());
}

#[test]
fn counters_follow_the_chunks() {
    let mut c = SyncCounters::new();
    c.chunk_stored(2048);
    c.chunk_dropped();
    c.chunk_stored(10);
    assert_eq!(c, SyncCounters { sent: 3, succeeded: 2, inserted: 2058, failed: 1 });
    let mut full = SyncCounters { sent: u64::MAX, succeeded: 0, inserted: u64::MAX - 1, failed: 0 };
    full.chunk_stored(5);
    assert_eq!(full.sent, u64::MAX);
    assert_eq!(full.inserted, u64::MAX);
    assert_eq!(full.succeeded, 1);
}
