use codex_server::stream::{
    begin_session, bridge_capacity, build_delta_frame, build_done_frame, build_stop_frame,
    StreamBridge, StreamSession,
};

fn session() -> StreamSession {
    StreamSession::new("chatcmpl-test".to_string(), 1700000000, "gpt-4o-mini".to_string())
}

#[test]
fn delta_frame_exact_bytes() {
    let f = build_delta_frame("chatcmpl-test", 1700000000, "gpt-4o-mini", "Hello", true);
    assert_eq!(
        f,
        "data: {\"choices\":[{\"delta\":{\"content\":\"Hello\",\"role\":\"assistant\"},\"finish_reason\":null,\"index\":0}],\"created\":1700000000,\"id\":\"chatcmpl-test\",\"model\":\"gpt-4o-mini\",\"object\":\"chat.completion.chunk\"}\n\n"
    );
    let g = build_delta_frame("chatcmpl-test", 1700000000, "gpt-4o-mini", "Hello", false);
    assert_eq!(
        g,
        "data: {\"choices\":[{\"delta\":{\"content\":\"Hello\"},\"finish_reason\":null,\"index\":0}],\"created\":1700000000,\"id\":\"chatcmpl-test\",\"model\":\"gpt-4o-mini\",\"object\":\"chat.completion.chunk\"}\n\n"
    );
}

#[test]
fn stop_and_done_frames_exact_bytes() {
    let f = build_stop_frame("chatcmpl-test", 1700000000, "gpt-4o-mini");
    assert_eq!(
        f,
        "data: {\"choices\":[{\"delta\":{},\"finish_reason\":\"stop\",\"index\":0}],\"created\":1700000000,\"id\":\"chatcmpl-test\",\"model\":\"gpt-4o-mini\",\"object\":\"chat.completion.chunk\"}\n\n"
    );
    assert_eq!(build_done_frame(), "data: [DONE]\n\n");
}

#[test]
fn role_tag_exactly_once_across_deltas() {
    let mut s = session();
    let mut frames: Vec<String> = Vec::new();
    for delta in ["Hel", "lo", "!"] {
        let payload = format!("{{\"type\":\"response.output_text.delta\",\"delta\":\"{delta}\"}}");
        frames.extend(s.process_payload(&payload.into_bytes()));
    }
    assert_eq!(frames.len(), 3);
    assert!(frames[0].contains("\"role\":\"assistant\""));
    assert!(!frames[1].contains("\"role\""));
    assert!(!frames[2].contains("\"role\""));
    assert!(frames[1].contains("\"content\":\"lo\""));
}

#[test]
fn terminal_ordering_stop_then_done_then_silence() {
    let mut s = session();
    let out = s.process_payload(&b"{\"type\":\"response.completed\"}".to_vec());
    assert_eq!(out.len(), 2);
    assert!(out[0].contains("\"finish_reason\":\"stop\""));
    assert_eq!(out[1], "data: [DONE]\n\n");
    // the upstream keeps sending: nothing more is forwarded
    let more = s.process_payload(
        &b"{\"type\":\"response.output_text.delta\",\"delta\":\"late\"}".to_vec(),
    );
    assert_eq!(more.len(), 0);
    assert!(s.is_finished());
}

#[test]
fn unknown_types_and_bad_payloads_are_ignored() {
    let mut s = session();
    assert_eq!(s.process_payload(&b"{\"type\":\"response.created\"}".to_vec()).len(), 0);
    assert_eq!(s.process_payload(&b"not json at all".to_vec()).len(), 0);
    assert_eq!(s.process_payload(&b"[DONE]".to_vec()).len(), 0);
    assert_eq!(s.process_payload(&b"{\"type\":\"response.output_text.delta\"}".to_vec()).len(), 0);
    assert!(!s.is_finished());
}

#[test]
fn bridge_reassembles_and_translates_across_chunks() {
    let mut b = StreamBridge::new(session());
    let whole: &[u8] =
        b"data: {\"type\":\"response.output_text.delta\",\"delta\":\"Hi\"}\n\ndata: {\"type\":\"response.completed\"}\n\ndata: late\n\n";
    // feed in three arbitrary pieces
    let c1 = whole.len() / 3;
    let c2 = 2 * whole.len() / 3;
    let mut out: Vec<String> = Vec::new();
    out.extend(b.push_chunk(&whole[..c1]));
    out.extend(b.push_chunk(&whole[c1..c2]));
    out.extend(b.push_chunk(&whole[c2..]));
    assert_eq!(out.len(), 3);
    assert!(out[0].contains("\"content\":\"Hi\""));
    assert!(out[0].contains("\"role\":\"assistant\""));
    assert!(out[1].contains("\"finish_reason\":\"stop\""));
    assert_eq!(out[2], "data: [DONE]\n\n");
    assert!(b.is_finished());
}

#[test]
fn session_ids_are_fresh_and_prefixed() {
    let a = begin_session("gpt-4o-mini");
    let b = begin_session("gpt-4o-mini");
    assert!(a.id.starts_with("chatcmpl-"));
    assert_eq!(a.id.chars().count(), 45);
    assert_ne!(a.id, b.id);
    assert!(!a.sent_role);
    assert!(!a.finished);
}

#[test]
fn bridge_capacities() {
    assert_eq!(bridge_capacity(true), 64);
    assert_eq!(bridge_capacity(false), 16);
}

#[test]
fn delta_text_is_json_unescaped_then_reescaped() {
    let mut s = session();
    let out = s.process_payload(
        &b"{\"type\":\"response.output_text.delta\",\"delta\":\"a\\\"b\\nc\"}".to_vec(),
    );
    assert_eq!(out.len(), 1);
    assert!(out[0].contains("\"content\":\"a\\\"b\\nc\""));
}
