use blob_stream::{BlobError, BlobStreamIn};

#[test]
fn duplicate_with_same_contents_is_reported_and_harmless() {
    let mut stream = BlobStreamIn::new(4, 2);
    stream.set_chunk(0, &[1, 2]).expect("first write works");

    let err = stream.set_chunk(0, &[1, 2]).expect_err("duplicate is reported");
    assert_eq!(err, BlobError::RedundantSameContents(0));

    stream.set_chunk(1, &[3, 4]).expect("other chunk still works");
    assert_eq!(*stream.blob().expect("complete"), vec![1, 2, 3, 4]);
}

#[test]
fn duplicate_with_different_contents_keeps_first_write() {
    let mut stream = BlobStreamIn::new(4, 2);
    stream.set_chunk(0, &[1, 2]).expect("first write works");

    let err = stream.set_chunk(0, &[9, 9]).expect_err("conflict is reported");
    assert_eq!(err, BlobError::RedundantContentDiffers(0));

    stream.set_chunk(1, &[3, 4]).expect("other chunk still works");
    assert_eq!(
        *stream.blob().expect("complete"),
        vec![1, 2, 3, 4],
        "the first write wins"
    );
}

#[test]
fn invalid_index_and_wrong_size_are_rejected() {
    let mut stream = BlobStreamIn::new(4, 2);

    let err = stream.set_chunk(5, &[1, 2]).expect_err("index past the count");
    assert_eq!(err, BlobError::InvalidChunkIndex(5, 2));

    let err = stream.set_chunk(1, &[1]).expect_err("short payload");
    assert_eq!(err, BlobError::UnexpectedChunkSize(2, 1, 1));

    assert!(!stream.is_complete());
    assert!(stream.blob().is_none(), "rejected chunks leave nothing stored");
}

#[test]
fn last_chunk_is_full_size_when_the_size_divides_evenly() {
    let mut stream = BlobStreamIn::new(10, 5);
    assert_eq!(stream.chunk_count(), 2);

    let err = stream.set_chunk(1, &[7]).expect_err("one byte is not enough");
    assert_eq!(err, BlobError::UnexpectedChunkSize(5, 1, 1));

    stream.set_chunk(1, &[7, 7, 7, 7, 7]).expect("five bytes fit the last chunk");
}

#[test]
fn blob_appears_exactly_at_completion() {
    let mut stream = BlobStreamIn::new(5, 2);
    assert_eq!(stream.chunk_count(), 3);
    assert!(!stream.is_complete());
    assert!(stream.blob().is_none());

    stream.set_chunk(0, &[1, 2]).expect("chunk 0");
    assert!(stream.blob().is_none());
    stream.set_chunk(2, &[5]).expect("chunk 2, one byte at the end");
    assert!(stream.blob().is_none());
    stream.set_chunk(1, &[3, 4]).expect("chunk 1");

    assert!(stream.is_complete());
    assert_eq!(
        *stream.blob().expect("complete"),
        vec![1, 2, 3, 4, 5],
        "the blob is the chunks concatenated in index order"
    );
}
