use procpipe::stream::LineStream;

#[test]
fn first_line_is_observed_before_the_second_is_written() {
    // a slow producer writes one line, pauses, writes another: the first
    // line must be yielded before any further byte arrives
    let mut s = LineStream::new();
    s.push_chunk(b"one\n".to_vec());
    assert_eq!(s.next_line(), Some(b"one".to_vec()));
    assert_eq!(s.next_line(), None);
    s.push_chunk(b"two\n".to_vec());
    assert_eq!(s.next_line(), Some(b"two".to_vec()));
    s.finish();
    assert_eq!(s.next_line(), None);
}

#[test]
fn lines_split_across_chunks_are_joined() {
    let mut s = LineStream::new();
    s.push_chunk(b"hel".to_vec());
    assert_eq!(s.next_line(), None);
    s.push_chunk(b"lo\nwor".to_vec());
    assert_eq!(s.next_line(), Some(b"hello".to_vec()));
    assert_eq!(s.next_line(), None);
    s.push_chunk(b"ld".to_vec());
    s.finish();
    assert_eq!(s.next_line(), Some(b"world".to_vec()));
    assert_eq!(s.next_line(), None);
}

#[test]
fn one_chunk_with_many_lines_yields_them_in_order() {
    let mut s = LineStream::new();
    s.push_chunk(b"a\nb\nc\n".to_vec());
    assert_eq!(s.next_line(), Some(b"a".to_vec()));
    assert_eq!(s.next_line(), Some(b"b".to_vec()));
    assert_eq!(s.next_line(), Some(b"c".to_vec()));
    assert_eq!(s.next_line(), None);
}

#[test]
fn unterminated_tail_is_yielded_once_after_end_of_stream() {
    let mut s = LineStream::new();
    s.push_chunk(b"tail".to_vec());
    assert_eq!(s.next_line(), None);
    s.finish();
    assert_eq!(s.next_line(), Some(b"tail".to_vec()));
    assert_eq!(s.next_line(), None);
    assert_eq!(s.next_line(), None);
}

#[test]
fn empty_stream_stays_empty() {
    let mut s = LineStream::new();
    s.finish();
    assert_eq!(s.next_line(), None);
}

#[test]
fn streamed_filtering_matches_the_batch_filter() {
    // `journalctl | grep usb`, line by line while the producer still runs
    let mut s = LineStream::new();
    let mut hits: Vec<Vec<u8>> = Vec::new();
    for chunk in [&b"usb 1-1 attached\nsda: ready\n"[..], &b"new usb device\n"[..]] {
        s.push_chunk(chunk.to_vec());
        while let Some(line) = s.next_line() {
            if procpipe::lines::contains_bytes(&line, b"usb") {
                hits.push(line);
            }
        }
    }
    s.finish();
    while let Some(line) = s.next_line() {
        if procpipe::lines::contains_bytes(&line, b"usb") {
            hits.push(line);
        }
    }
    assert_eq!(
        hits,
        vec![b"usb 1-1 attached".to_vec(), b"new usb device".to_vec()]
    );
}
