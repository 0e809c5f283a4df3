use netprobe::paced::PacedByteStream;
use netprobe::upload::UploadSink;

#[test]
fn paced_stream_yields_exactly_count_chunks_of_size() {
    let mut stream = PacedByteStream::open(3, 5, 50);
    let mut yielded = 0u64;
    while let Some((_wait, chunk)) = stream.next() {
        assert_eq!(chunk.len(), 3);
        assert!(chunk.iter().all(|b| *b == 0));
        yielded += 1;
        assert!(yielded <= 5);
    }
    assert_eq!(yielded, 5);
    // The stream has ended cleanly and keeps saying so.
    assert!(stream.next().is_none());
}

#[test]
fn empty_stream_terminates_at_once() {
    let mut stream = PacedByteStream::open(1024, 0, 50);
    assert!(stream.next().is_none());
}

#[test]
fn delay_is_owed_before_every_chunk_after_the_first() {
    let mut stream = PacedByteStream::open(1, 3, 40);
    let mut waits = Vec::new();
    while let Some((wait, _chunk)) = stream.next() {
        waits.push(wait);
    }
    assert_eq!(waits, vec![0, 40, 40]);
    let total: u64 = waits.iter().sum();
    assert_eq!(total, (3 - 1) * 40);
}

#[test]
fn cancelling_consumption_partway_is_clean() {
    // A consumer that stops asking simply drops the stream; nothing blocks.
    let mut stream = PacedByteStream::open(1 << 20, 100, 0);
    for _ in 0..3 {
        let item = stream.next();
        assert!(item.is_some());
    }
    drop(stream);
}

#[test]
fn upload_sink_counts_all_bytes() {
    let mut sink = UploadSink::new();
    assert_eq!(sink.total(), 0);
    sink.observe(4096);
    sink.observe(0);
    sink.observe(1);
    assert_eq!(sink.total(), 4097);
}
