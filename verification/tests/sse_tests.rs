use codex_server::sse::{frame_payloads, is_done_payload, SseReassembler};

#[test]
fn whole_frame_in_one_chunk() {
    let mut r = SseReassembler::new();
    let frames = r.push_chunk(b"data: {\"type\":\"response.completed\"}\n\n");
    assert_eq!(frames.len(), 1);
    let payloads = frame_payloads(&frames[0]);
    assert_eq!(payloads.len(), 1);
    assert_eq!(payloads[0], b"{\"type\":\"response.completed\"}".to_vec());
}

#[test]
fn split_at_every_byte_offset_yields_one_event() {
    let whole: &[u8] = b"data: {\"type\":\"response.completed\"}\n\n";
    for cut in 0..=whole.len() {
        let mut r = SseReassembler::new();
        let mut frames = r.push_chunk(&whole[..cut]);
        frames.extend(r.push_chunk(&whole[cut..]));
        assert_eq!(frames.len(), 1, "cut at {cut}");
        let payloads = frame_payloads(&frames[0]);
        assert_eq!(payloads.len(), 1, "cut at {cut}");
        assert_eq!(payloads[0], b"{\"type\":\"response.completed\"}".to_vec());
    }
}

#[test]
fn split_byte_by_byte_yields_one_event() {
    let whole: &[u8] = b"data: {\"type\":\"response.output_text.delta\",\"delta\":\"hi\"}\n\n";
    let mut r = SseReassembler::new();
    let mut frames = Vec::new();
    for b in whole {
        frames.extend(r.push_chunk(std::slice::from_ref(b)));
    }
    assert_eq!(frames.len(), 1);
    let payloads = frame_payloads(&frames[0]);
    assert_eq!(payloads.len(), 1);
}

#[test]
fn two_frames_in_one_chunk() {
    let mut r = SseReassembler::new();
    let frames = r.push_chunk(b"data: a\n\ndata: b\n\n");
    assert_eq!(frames.len(), 2);
    assert_eq!(frame_payloads(&frames[0])[0], b"a".to_vec());
    assert_eq!(frame_payloads(&frames[1])[0], b"b".to_vec());
}

#[test]
fn incomplete_frame_stays_buffered() {
    let mut r = SseReassembler::new();
    let frames = r.push_chunk(b"data: partial");
    assert_eq!(frames.len(), 0);
    let frames = r.push_chunk(b" done\n\n");
    assert_eq!(frames.len(), 1);
    assert_eq!(frame_payloads(&frames[0])[0], b"partial done".to_vec());
}

#[test]
fn non_data_lines_are_ignored() {
    let mut r = SseReassembler::new();
    let frames = r.push_chunk(b"event: message\ndata: x\nid: 7\n\n");
    assert_eq!(frames.len(), 1);
    let payloads = frame_payloads(&frames[0]);
    assert_eq!(payloads.len(), 1);
    assert_eq!(payloads[0], b"x".to_vec());
}

#[test]
fn done_sentinel_detection() {
    assert!(is_done_payload(&b"[DONE]".to_vec()));
    assert!(!is_done_payload(&b"[done]".to_vec()));
    assert!(!is_done_payload(&b"[DONE] ".to_vec()));
    assert!(!is_done_payload(&b"".to_vec()));
}
