use kube::{Frame, FrameKind, Pull, ReadEvent, TransportFault, WatchDecoder};

fn feed_all(chunks: &[&[u8]]) -> (Vec<Frame>, WatchDecoder) {
    let mut decoder = WatchDecoder::new();
    let mut out = Vec::new();
    for chunk in chunks {
        out.extend(decoder.push(chunk));
    }
    (out, decoder)
}

fn doc(text: &str) -> Frame {
    Frame { kind: FrameKind::Document, bytes: text.as_bytes().to_vec() }
}

#[test]
fn event_split_across_chunks_yields_two_events() {
    let first: &[u8] = b"{\"type\":\"ADDED\",\"object\":{\"a\":1}}\n{\"type\":\"MODI";
    let second: &[u8] = b"FIED\",\"object\":{\"a\":2}}\n";
    let mut decoder = WatchDecoder::new();
    let one = decoder.push(first);
    assert_eq!(one, vec![doc("{\"type\":\"ADDED\",\"object\":{\"a\":1}}")]);
    let two = decoder.push(second);
    assert_eq!(two, vec![doc("{\"type\":\"MODIFIED\",\"object\":{\"a\":2}}")]);
}

#[test]
fn chunk_without_newline_emits_nothing() {
    let mut decoder = WatchDecoder::new();
    assert!(decoder.push(b"{\"type\":\"ADDED\"").is_empty());
    assert!(decoder.push(b",\"object\":{}}").is_empty());
    assert_eq!(decoder.push(b"\n"), vec![doc("{\"type\":\"ADDED\",\"object\":{}}")]);
}

#[test]
fn partitions_give_same_frames() {
    let total: &[u8] = b"{\"a\":1}\n\n{\"b\":\n2}\nnot json\n{\"c\":3}\n{\"d\"";
    let (whole, _) = feed_all(&[total]);
    let mut bytewise: Vec<&[u8]> = Vec::new();
    for i in 0..total.len() {
        bytewise.push(&total[i..i + 1]);
    }
    let (single, _) = feed_all(&bytewise);
    let (three, _) = feed_all(&[&total[..5], &total[5..17], &total[17..]]);
    assert_eq!(whole, single);
    assert_eq!(whole, three);
    assert_eq!(
        whole,
        vec![
            doc("{\"a\":1}"),
            doc("{\"b\":2}"),
            Frame { kind: FrameKind::Malformed, bytes: b"not json".to_vec() },
            doc("{\"c\":3}"),
        ]
    );
}

#[test]
fn malformed_line_does_not_end_stream() {
    let (frames, _) = feed_all(&[b"}{\n{\"x\":true}\n"]);
    assert_eq!(
        frames,
        vec![Frame { kind: FrameKind::Malformed, bytes: b"}{".to_vec() }, doc("{\"x\":true}")]
    );
}

#[test]
fn blank_lines_emit_nothing() {
    let (frames, _) = feed_all(&[b"\n\n\n"]);
    assert!(frames.is_empty());
}

#[test]
fn timeout_ends_watch_without_error() {
    let mut decoder = WatchDecoder::new();
    let batch = decoder.on_read(ReadEvent::Chunk(b"{\"a\":1}\n".to_vec()));
    assert_eq!(batch, Pull::Batch(vec![doc("{\"a\":1}")]));
    let fault = TransportFault { timed_out: true, message: "operation timed out".to_string() };
    assert_eq!(decoder.on_read(ReadEvent::Failed(fault)), Pull::Finished);
    assert_eq!(decoder.on_read(ReadEvent::Chunk(b"{}\n".to_vec())), Pull::Finished);
}

#[test]
fn abrupt_close_ends_watch_without_error() {
    let mut decoder = WatchDecoder::new();
    let fault = TransportFault {
        timed_out: false,
        message: "error reading a body from connection: unexpected EOF during chunk size line".to_string(),
    };
    assert_eq!(decoder.on_read(ReadEvent::Failed(fault)), Pull::Finished);
}

#[test]
fn other_fault_is_last_item() {
    let mut decoder = WatchDecoder::new();
    let fault = TransportFault { timed_out: false, message: "connection reset by peer".to_string() };
    assert_eq!(
        decoder.on_read(ReadEvent::Failed(fault)),
        Pull::Fatal("connection reset by peer".to_string())
    );
    assert_eq!(decoder.on_read(ReadEvent::End), Pull::Finished);
}

#[test]
fn clean_end_finishes() {
    let mut decoder = WatchDecoder::new();
    assert_eq!(decoder.on_read(ReadEvent::Chunk(b"{\"a\"".to_vec())), Pull::Batch(vec![]));
    assert_eq!(decoder.on_read(ReadEvent::End), Pull::Finished);
}
