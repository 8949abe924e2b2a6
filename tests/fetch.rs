use forged::fetch::{FetchError, Progress, StreamingFetch};

fn reports(total: u64, chunks: &[&[u8]]) -> (Vec<u8>, Vec<Progress>) {
    let mut f = StreamingFetch::start(Some(total)).unwrap();
    let mut seen = Vec::new();
    for c in chunks {
        seen.push(f.on_chunk(c));
    }
    let (data, last) = f.finish();
    seen.push(last);
    (data, seen)
}

fn assert_rising_to_complete(seen: &[Progress]) {
    for w in seen.windows(2) {
        assert!(w[0].done <= w[1].done);
        assert_eq!(w[0].total, w[1].total);
    }
    let last = seen.last().unwrap();
    assert_eq!(last.done, last.total);
}

#[test]
fn progress_rises_and_ends_complete() {
    let (data, seen) = reports(10, &[b"abc", b"defg", b"hij"]);
    assert_eq!(data, b"abcdefghij");
    let done: Vec<u64> = seen.iter().map(|p| p.done).collect();
    assert_eq!(done, vec![3, 7, 10, 10]);
    assert_rising_to_complete(&seen);
}

#[test]
fn single_chunk_progress() {
    let (data, seen) = reports(5, &[b"12345"]);
    assert_eq!(data, b"12345");
    assert_eq!(seen, vec![Progress { done: 5, total: 5 }, Progress { done: 5, total: 5 }]);
}

#[test]
fn short_transfer_still_ends_complete() {
    let (data, seen) = reports(100, &[b"ab", b"cd"]);
    assert_eq!(data, b"abcd");
    let done: Vec<u64> = seen.iter().map(|p| p.done).collect();
    assert_eq!(done, vec![2, 4, 100]);
    assert_rising_to_complete(&seen);
}

#[test]
fn overlong_transfer_is_capped_at_total() {
    let (data, seen) = reports(4, &[b"abc", b"def", b"g"]);
    assert_eq!(data, b"abcdefg");
    let done: Vec<u64> = seen.iter().map(|p| p.done).collect();
    assert_eq!(done, vec![3, 4, 4, 4]);
    assert_rising_to_complete(&seen);
}

#[test]
fn empty_transfer() {
    let (data, seen) = reports(0, &[]);
    assert!(data.is_empty());
    assert_eq!(seen, vec![Progress { done: 0, total: 0 }]);
}

#[test]
fn unknown_size_is_refused() {
    assert!(matches!(StreamingFetch::start(None), Err(FetchError::SizeUnknown)));
}

#[test]
fn largest_declared_size_does_not_overflow() {
    let mut f = StreamingFetch::start(Some(u64::MAX)).unwrap();
    assert_eq!(f.on_chunk(&[0u8; 16]), Progress { done: 16, total: u64::MAX });
    f.done = u64::MAX - 3;
    assert_eq!(f.on_chunk(&[1u8; 8]), Progress { done: u64::MAX, total: u64::MAX });
    let (data, last) = f.finish();
    assert_eq!(data.len(), 24);
    assert_eq!(last, Progress { done: u64::MAX, total: u64::MAX });
}
