use keryx_rules::streams::{
    Arrival, HeadersChunkStream, PruningPointUtxosetChunkStream, StreamError, TrustedEntryStream, IBD_BATCH_SIZE,
};

#[test]
fn trusted_entries_request_a_batch_every_batch_size() {
    let mut s = TrustedEntryStream::new();
    let mut requests = 0;
    for k in 1..=2 * IBD_BATCH_SIZE {
        let step = s.next(Arrival::TrustedEntry { header_only: false });
        assert_eq!(step.outcome, Ok(true));
        if step.request_next {
            requests += 1;
            assert_eq!(k % IBD_BATCH_SIZE, 0);
        }
    }
    assert_eq!(requests, 2);
    let step = s.next(Arrival::TrustedEntry { header_only: true });
    assert_eq!(step.outcome, Err(StreamError::HeaderOnlyTrustedEntry));
    assert_eq!(s.next(Arrival::Done).outcome, Ok(false));
    assert_eq!(s.next(Arrival::Chunk { len: 3 }).outcome, Err(StreamError::UnexpectedMessage));
    assert_eq!(s.next(Arrival::TimedOut).outcome, Err(StreamError::Timeout));
}

#[test]
fn header_chunks_must_not_be_empty() {
    let mut s = HeadersChunkStream::new();
    let step = s.next(Arrival::Chunk { len: 5 });
    assert_eq!(step.outcome, Ok(true));
    assert!(step.request_next);
    assert_eq!(s.next(Arrival::Chunk { len: 0 }).outcome, Err(StreamError::EmptyHeadersMessage));
    assert_eq!(s.next(Arrival::Closed).outcome, Err(StreamError::ConnectionClosed));
    let done = s.next(Arrival::Done);
    assert_eq!(done.outcome, Ok(false));
    assert!(!done.request_next);
}

#[test]
fn utxo_chunks_are_counted_and_a_moved_pruning_point_is_refused() {
    let mut s = PruningPointUtxosetChunkStream::new();
    for _ in 0..IBD_BATCH_SIZE - 1 {
        assert!(!s.next(Arrival::Chunk { len: 10 }).request_next);
    }
    assert!(s.next(Arrival::Chunk { len: 1 }).request_next);
    assert_eq!(s.utxo_count(), 10 * (IBD_BATCH_SIZE - 1) + 1);
    assert_eq!(s.next(Arrival::UnexpectedPruningPoint).outcome, Err(StreamError::UnexpectedPruningPoint));
    assert_eq!(s.next(Arrival::Other).outcome, Err(StreamError::UnexpectedMessage));
}
