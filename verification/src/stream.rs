//! The streaming bridge state machine.
//!
//! In translating mode, each upstream SSE payload is parsed and dispatched by
//! its type tag: text deltas become Chat-Completions chunk frames stamped with
//! the session's id, creation time and model; the first such frame also
//! carries `role: "assistant"`, never any later one; a completion event yields
//! one final `finish_reason: "stop"` chunk followed by the `[DONE]` sentinel,
//! after which nothing more is emitted.

use vstd::prelude::*;
use crate::json::{
    Json, spec_quoted, spec_u64_dec, spec_json_text, spec_obj_text, spec_get, spec_as_str,
    lemma_obj_text_push, lemma_arr_text_singleton, json_str, json_u64, json_to_string, json_get,
    json_as_str, json_tree_of, parse_json,
};
use crate::sse::{
    spec_done_payload, is_done_payload, SseReassembler, spec_frames, spec_tail,
    spec_frame_payloads, frame_payloads, lemma_stream_split,
};
use crate::strings::{str_to_chars, chars_to_string, str_eq};

verus! {

/// Serialized text of the chunk's `delta` object.
pub open spec fn spec_delta_obj_text(delta: Seq<char>, with_role: bool) -> Seq<char> {
    if with_role {
        seq!['{'] + spec_quoted("content"@) + seq![':'] + spec_quoted(delta) + seq![',']
            + spec_quoted("role"@) + seq![':'] + spec_quoted("assistant"@) + seq!['}']
    } else {
        seq!['{'] + spec_quoted("content"@) + seq![':'] + spec_quoted(delta) + seq!['}']
    }
}

/// Serialized text of the single choice object.
pub open spec fn spec_choice_text(delta_obj: Seq<char>, finish: Seq<char>) -> Seq<char> {
    seq!['{'] + spec_quoted("delta"@) + seq![':'] + delta_obj + seq![','] + spec_quoted(
        "finish_reason"@,
    ) + seq![':'] + finish + seq![','] + spec_quoted("index"@) + seq![':'] + spec_u64_dec(0)
        + seq!['}']
}

/// Serialized text of a whole chunk body, fields in key order.
pub open spec fn spec_chunk_text(id: Seq<char>, created: int, model: Seq<char>, choice: Seq<
    char,
>) -> Seq<char> {
    seq!['{'] + spec_quoted("choices"@) + seq![':'] + seq!['['] + choice + seq![']'] + seq![',']
        + spec_quoted("created"@) + seq![':'] + spec_u64_dec(created) + seq![','] + spec_quoted(
        "id"@,
    ) + seq![':'] + spec_quoted(id) + seq![','] + spec_quoted("model"@) + seq![':'] + spec_quoted(
        model,
    ) + seq![','] + spec_quoted("object"@) + seq![':'] + spec_quoted("chat.completion.chunk"@)
        + seq!['}']
}

/// One outbound SSE frame around a body.
pub open spec fn spec_sse_frame(body: Seq<char>) -> Seq<char> {
    "data: "@ + body + seq!['\n', '\n']
}

/// The frame emitted for one text delta.
pub open spec fn spec_delta_frame(
    id: Seq<char>,
    created: int,
    model: Seq<char>,
    delta: Seq<char>,
    with_role: bool,
) -> Seq<char> {
    spec_sse_frame(
        spec_chunk_text(
            id,
            created,
            model,
            spec_choice_text(spec_delta_obj_text(delta, with_role), "null"@),
        ),
    )
}

/// The final chunk frame: empty delta, `finish_reason: "stop"`.
pub open spec fn spec_stop_frame(id: Seq<char>, created: int, model: Seq<char>) -> Seq<char> {
    spec_sse_frame(
        spec_chunk_text(
            id,
            created,
            model,
            spec_choice_text(seq!['{'] + seq!['}'], spec_quoted("stop"@)),
        ),
    )
}

/// The terminal sentinel frame.
pub open spec fn spec_done_frame() -> Seq<char> {
    "data: [DONE]\n\n"@
}

/// Wrap a serialized body into an outbound SSE frame.
fn sse_frame(body: &String) -> (r: String)
    ensures
        r@ == spec_sse_frame(body@),
{
    let mut cs = str_to_chars("data: ");
    let mut bs = str_to_chars(body.as_str());
    cs.append(&mut bs);
    cs.push('\n');
    cs.push('\n');
    proof {
        assert(cs@ =~= spec_sse_frame(body@));
    }
    chars_to_string(&cs)
}

pub fn new_string(s: &str) -> (r: String)
    ensures
        r@ == s@,
{
    <String as vstd::string::StringExecFns>::from_str(s)
}

/// Build the delta object `{"content": ..}`, with the role tag when asked.
fn build_delta_obj(delta: &str, with_role: bool) -> (r: Json)
    ensures
        spec_json_text(r) == spec_delta_obj_text(delta@, with_role),
{
    let mut pairs: Vec<(String, Json)> = Vec::new();
    pairs.push((new_string("content"), json_str(delta)));
    if with_role {
        pairs.push((new_string("role"), json_str("assistant")));
    }
    let r = Json::Obj(pairs);
    proof {
        let ps = r->Obj_0@;
        if with_role {
            assert(ps.drop_last() =~= seq![ps[0]]);
            lemma_obj_text_push(seq![ps[0]], ps[1]);
            assert(seq![ps[0]].push(ps[1]) =~= ps);
            assert(spec_obj_text(seq![ps[0]]) == spec_quoted(ps[0].0@) + seq![':']
                + spec_json_text(ps[0].1));
            assert(spec_json_text(r) =~= spec_delta_obj_text(delta@, true));
        } else {
            assert(spec_obj_text(ps) == spec_quoted(ps[0].0@) + seq![':'] + spec_json_text(
                ps[0].1,
            ));
            assert(spec_json_text(r) =~= spec_delta_obj_text(delta@, false));
        }
    }
    r
}

/// Build the single choice object around a delta object and a finish reason.
fn build_choice(delta_obj: Json, finish: Json) -> (r: Json)
    ensures
        spec_json_text(r) == spec_choice_text(spec_json_text(delta_obj), spec_json_text(finish)),
{
    let ghost dtext = spec_json_text(delta_obj);
    let ghost ftext = spec_json_text(finish);
    let mut pairs: Vec<(String, Json)> = Vec::new();
    pairs.push((new_string("delta"), delta_obj));
    pairs.push((new_string("finish_reason"), finish));
    pairs.push((new_string("index"), json_u64(0)));
    let r = Json::Obj(pairs);
    proof {
        let ps = r->Obj_0@;
        lemma_obj_text_push(seq![ps[0]], ps[1]);
        assert(seq![ps[0]].push(ps[1]) =~= seq![ps[0], ps[1]]);
        lemma_obj_text_push(seq![ps[0], ps[1]], ps[2]);
        assert(seq![ps[0], ps[1]].push(ps[2]) =~= ps);
        assert(spec_obj_text(seq![ps[0]]) == spec_quoted(ps[0].0@) + seq![':'] + spec_json_text(
            ps[0].1,
        ));
        assert(spec_json_text(r) =~= spec_choice_text(dtext, ftext));
    }
    r
}

/// Build a whole chunk body around one choice.
#[verifier::rlimit(100)]
fn build_chunk(id: &str, created: u64, model: &str, choice: Json) -> (r: Json)
    ensures
        spec_json_text(r) == spec_chunk_text(id@, created as int, model@, spec_json_text(choice)),
{
    let ghost ctext = spec_json_text(choice);
    let mut items: Vec<Json> = Vec::new();
    items.push(choice);
    let mut pairs: Vec<(String, Json)> = Vec::new();
    pairs.push((new_string("choices"), Json::Arr(items)));
    pairs.push((new_string("created"), json_u64(created)));
    pairs.push((new_string("id"), json_str(id)));
    pairs.push((new_string("model"), json_str(model)));
    pairs.push((new_string("object"), json_str("chat.completion.chunk")));
    let r = Json::Obj(pairs);
    proof {
        let ps = r->Obj_0@;
        let arr = ps[0].1;
        assert(arr->Arr_0@ =~= seq![arr->Arr_0@[0]]);
        lemma_arr_text_singleton(arr->Arr_0@[0]);
        assert(spec_json_text(arr) == seq!['['] + ctext + seq![']']);
        lemma_obj_text_push(seq![ps[0]], ps[1]);
        assert(seq![ps[0]].push(ps[1]) =~= seq![ps[0], ps[1]]);
        lemma_obj_text_push(seq![ps[0], ps[1]], ps[2]);
        assert(seq![ps[0], ps[1]].push(ps[2]) =~= seq![ps[0], ps[1], ps[2]]);
        lemma_obj_text_push(seq![ps[0], ps[1], ps[2]], ps[3]);
        assert(seq![ps[0], ps[1], ps[2]].push(ps[3]) =~= seq![ps[0], ps[1], ps[2], ps[3]]);
        lemma_obj_text_push(seq![ps[0], ps[1], ps[2], ps[3]], ps[4]);
        assert(seq![ps[0], ps[1], ps[2], ps[3]].push(ps[4]) =~= ps);
        assert(spec_obj_text(seq![ps[0]]) == spec_quoted(ps[0].0@) + seq![':'] + spec_json_text(
            ps[0].1,
        ));
        assert(spec_json_text(r) =~= spec_chunk_text(id@, created as int, model@, ctext));
    }
    r
}

/// The frame for one text delta, with the role tag when asked.
pub fn build_delta_frame(id: &str, created: u64, model: &str, delta: &str, with_role: bool) -> (r:
    String)
    ensures
        r@ == spec_delta_frame(id@, created as int, model@, delta@, with_role),
{
    let dobj = build_delta_obj(delta, with_role);
    let choice = build_choice(dobj, Json::Null);
    let chunk = build_chunk(id, created, model, choice);
    let body = json_to_string(&chunk);
    sse_frame(&body)
}

/// The final chunk frame.
pub fn build_stop_frame(id: &str, created: u64, model: &str) -> (r: String)
    ensures
        r@ == spec_stop_frame(id@, created as int, model@),
{
    let empty_obj = Json::Obj(Vec::new());
    proof {
        assert(empty_obj->Obj_0@.len() == 0);
        assert(spec_obj_text(empty_obj->Obj_0@) == Seq::<char>::empty());
        assert(spec_json_text(empty_obj) =~= seq!['{'] + seq!['}']);
    }
    let choice = build_choice(empty_obj, json_str("stop"));
    let chunk = build_chunk(id, created, model, choice);
    let body = json_to_string(&chunk);
    sse_frame(&body)
}

/// The terminal sentinel frame.
pub fn build_done_frame() -> (r: String)
    ensures
        r@ == spec_done_frame(),
{
    new_string("data: [DONE]\n\n")
}

/// A field read as a string: `None` when absent or not a string.
pub open spec fn spec_str_field(t: Json, key: Seq<char>) -> Option<Seq<char>> {
    match spec_get(t, key) {
        Some(v) => spec_as_str(v),
        None => None,
    }
}

pub fn get_str_field<'a>(t: &'a Json, key: &str) -> (r: Option<&'a String>)
    ensures
        match r {
            Some(s) => spec_str_field(*t, key@) == Some(s@),
            None => spec_str_field(*t, key@) is None,
        },
{
    match json_get(t, key) {
        Some(v) => json_as_str(v),
        None => None,
    }
}

/// Per-request correlation state: id and creation time are fixed at the start
/// and stamped into every emitted frame; the role tag and the terminal pair
/// are each emitted at most once.
pub struct StreamSession {
    pub id: String,
    pub created: u64,
    pub model: String,
    pub sent_role: bool,
    pub finished: bool,
}

/// What one upstream payload yields: the frames to emit and the next state.
pub open spec fn spec_session_step(s: StreamSession, payload: Seq<u8>) -> (Seq<Seq<char>>,
    StreamSession) {
    if s.finished {
        (Seq::empty(), s)
    } else if payload == spec_done_payload() {
        (Seq::empty(), s)
    } else {
        match json_tree_of(payload) {
            None => (Seq::empty(), s),
            Some(t) => {
                let ty = spec_str_field(t, "type"@);
                if ty == Some("response.output_text.delta"@) {
                    match spec_str_field(t, "delta"@) {
                        Some(d) => (
                            seq![
                                spec_delta_frame(
                                    s.id@,
                                    s.created as int,
                                    s.model@,
                                    d,
                                    !s.sent_role,
                                ),
                            ],
                            StreamSession { sent_role: true, ..s },
                        ),
                        None => (Seq::empty(), s),
                    }
                } else if ty == Some("response.completed"@) {
                    (
                        seq![
                            spec_stop_frame(s.id@, s.created as int, s.model@),
                            spec_done_frame(),
                        ],
                        StreamSession { finished: true, ..s },
                    )
                } else {
                    (Seq::empty(), s)
                }
            },
        }
    }
}

/// Folding `spec_session_step` over a payload sequence.
pub open spec fn spec_session_run(s: StreamSession, payloads: Seq<Seq<u8>>) -> (Seq<Seq<char>>,
    StreamSession)
    decreases payloads.len(),
{
    if payloads.len() == 0 {
        (Seq::empty(), s)
    } else {
        let first = spec_session_step(s, payloads[0]);
        let rest = spec_session_run(first.1, payloads.drop_first());
        (first.0 + rest.0, rest.1)
    }
}

/// Runs compose: a payload list can be handed over in two pieces.
pub proof fn lemma_run_concat(s: StreamSession, a: Seq<Seq<u8>>, b: Seq<Seq<u8>>)
    ensures
        spec_session_run(s, a + b).0 == spec_session_run(s, a).0 + spec_session_run(
            spec_session_run(s, a).1,
            b,
        ).0,
        spec_session_run(s, a + b).1 == spec_session_run(spec_session_run(s, a).1, b).1,
    decreases a.len(),
{
    if a.len() == 0 {
        assert(a + b =~= b);
        assert(spec_session_run(s, a).0 + spec_session_run(s, b).0 =~= spec_session_run(s, b).0);
    } else {
        assert((a + b)[0] == a[0]);
        assert((a + b).drop_first() =~= a.drop_first() + b);
        let s1 = spec_session_step(s, a[0]).1;
        lemma_run_concat(s1, a.drop_first(), b);
        assert(spec_session_run(s, a + b).0 =~= spec_session_run(s, a).0 + spec_session_run(
            spec_session_run(s, a).1,
            b,
        ).0);
    }
}

impl StreamSession {
    pub fn new(id: String, created: u64, model: String) -> (s: Self)
        ensures
            s.id == id,
            s.created == created,
            s.model == model,
            !s.sent_role,
            !s.finished,
    {
        StreamSession { id, created, model, sent_role: false, finished: false }
    }

    pub fn is_finished(&self) -> (r: bool)
        ensures
            r == self.finished,
    {
        self.finished
    }

    /// Dispatch one reassembled payload: parse it, translate a text delta or
    /// the completion event, ignore everything else.
    pub fn process_payload(&mut self, payload: &Vec<u8>) -> (out: Vec<String>)
        ensures
            out@.map_values(|f: String| f@) == spec_session_step(*old(self), payload@).0,
            *final(self) == spec_session_step(*old(self), payload@).1,
    {
        let mut out: Vec<String> = Vec::new();
        proof {
            assert(out@.map_values(|f: String| f@) =~= Seq::<Seq<char>>::empty());
        }
        if self.finished {
            return out;
        }
        if is_done_payload(payload) {
            return out;
        }
        match parse_json(payload.as_slice()) {
            None => out,
            Some(t) => {
                let is_delta = match get_str_field(&t, "type") {
                    Some(ty) => str_eq(ty.as_str(), "response.output_text.delta"),
                    None => false,
                };
                let is_completed = match get_str_field(&t, "type") {
                    Some(ty) => str_eq(ty.as_str(), "response.completed"),
                    None => false,
                };
                if is_delta {
                    match get_str_field(&t, "delta") {
                        Some(d) => {
                            let with_role = !self.sent_role;
                            let f = build_delta_frame(
                                self.id.as_str(),
                                self.created,
                                self.model.as_str(),
                                d.as_str(),
                                with_role,
                            );
                            out.push(f);
                            self.sent_role = true;
                            proof {
                                assert(out@.map_values(|f: String| f@) =~= spec_session_step(
                                    *old(self),
                                    payload@,
                                ).0);
                            }
                            out
                        },
                        None => out,
                    }
                } else if is_completed {
                    let f1 = build_stop_frame(
                        self.id.as_str(),
                        self.created,
                        self.model.as_str(),
                    );
                    let f2 = build_done_frame();
                    out.push(f1);
                    out.push(f2);
                    self.finished = true;
                    proof {
                        assert(out@.map_values(|f: String| f@) =~= spec_session_step(
                            *old(self),
                            payload@,
                        ).0);
                    }
                    out
                } else {
                    out
                }
            },
        }
    }
}

/// A payload that translates to one delta frame.
pub open spec fn spec_is_delta_payload(p: Seq<u8>) -> bool {
    p != spec_done_payload() && match json_tree_of(p) {
        Some(t) => spec_str_field(t, "type"@) == Some("response.output_text.delta"@)
            && spec_str_field(t, "delta"@) is Some,
        None => false,
    }
}

/// The delta text carried by such a payload.
pub open spec fn spec_delta_text_of(p: Seq<u8>) -> Seq<char> {
    spec_str_field(json_tree_of(p).unwrap(), "delta"@).unwrap()
}

/// A payload that ends the stream.
pub open spec fn spec_is_completed_payload(p: Seq<u8>) -> bool {
    p != spec_done_payload() && match json_tree_of(p) {
        Some(t) => spec_str_field(t, "type"@) == Some("response.completed"@),
        None => false,
    }
}

/// Once the role tag has gone out, delta payloads translate to role-free
/// frames and leave the session state as it stands.
pub proof fn lemma_deltas_after_role(s: StreamSession, payloads: Seq<Seq<u8>>)
    requires
        s.sent_role,
        !s.finished,
        forall|i: int| 0 <= i < payloads.len() ==> spec_is_delta_payload(#[trigger] payloads[i]),
    ensures
        spec_session_run(s, payloads).0 =~= Seq::new(
            payloads.len(),
            |i: int|
                spec_delta_frame(
                    s.id@,
                    s.created as int,
                    s.model@,
                    spec_delta_text_of(payloads[i]),
                    false,
                ),
        ),
        spec_session_run(s, payloads).1 == s,
    decreases payloads.len(),
{
    if payloads.len() > 0 {
        let s1 = spec_session_step(s, payloads[0]).1;
        assert(s1 == s);
        lemma_deltas_after_role(s, payloads.drop_first());
    }
}

/// Across any number of delta events in one session, exactly the first
/// translated frame carries the role tag.
pub proof fn lemma_role_tag_exactly_once(s: StreamSession, payloads: Seq<Seq<u8>>)
    requires
        !s.sent_role,
        !s.finished,
        payloads.len() >= 1,
        forall|i: int| 0 <= i < payloads.len() ==> spec_is_delta_payload(#[trigger] payloads[i]),
    ensures
        spec_session_run(s, payloads).0.len() == payloads.len(),
        spec_session_run(s, payloads).0[0] == spec_delta_frame(
            s.id@,
            s.created as int,
            s.model@,
            spec_delta_text_of(payloads[0]),
            true,
        ),
        forall|i: int|
            1 <= i < payloads.len() ==> spec_session_run(s, payloads).0[i] == spec_delta_frame(
                s.id@,
                s.created as int,
                s.model@,
                spec_delta_text_of(payloads[i]),
                false,
            ),
{
    let s1 = spec_session_step(s, payloads[0]).1;
    assert(s1 == StreamSession { sent_role: true, ..s });
    lemma_deltas_after_role(s1, payloads.drop_first());
    let first = spec_session_step(s, payloads[0]).0;
    let rest = spec_session_run(s1, payloads.drop_first()).0;
    assert(first.len() == 1);
    assert(spec_session_run(s, payloads).0 == first + rest);
    assert forall|i: int| 1 <= i < payloads.len() implies spec_session_run(s, payloads).0[i]
        == spec_delta_frame(
        s.id@,
        s.created as int,
        s.model@,
        spec_delta_text_of(payloads[i]),
        false,
    ) by {
        assert((first + rest)[i] == rest[i - 1]);
        assert(payloads.drop_first()[i - 1] == payloads[i]);
    }
}

/// A completion event yields the stop chunk immediately followed by the
/// `[DONE]` sentinel, and closes the session.
pub proof fn lemma_terminal_order(s: StreamSession, p: Seq<u8>)
    requires
        !s.finished,
        spec_is_completed_payload(p),
    ensures
        spec_session_step(s, p).0 =~= seq![
            spec_stop_frame(s.id@, s.created as int, s.model@),
            spec_done_frame(),
        ],
        spec_session_step(s, p).1.finished,
{
    reveal_strlit("response.output_text.delta");
    reveal_strlit("response.completed");
    assert("response.output_text.delta"@.len() != "response.completed"@.len());
}

/// A session's identity never changes: whatever events arrive, the id,
/// creation time and model stamped into frames stay what they were at the
/// start, and the role-sent and finished flags never go back.
pub proof fn lemma_session_identity_fixed(s: StreamSession, payloads: Seq<Seq<u8>>)
    ensures
        spec_session_run(s, payloads).1.id == s.id,
        spec_session_run(s, payloads).1.created == s.created,
        spec_session_run(s, payloads).1.model == s.model,
        s.sent_role ==> spec_session_run(s, payloads).1.sent_role,
        s.finished ==> spec_session_run(s, payloads).1.finished,
    decreases payloads.len(),
{
    if payloads.len() > 0 {
        lemma_session_identity_fixed(spec_session_step(s, payloads[0]).1, payloads.drop_first());
    }
}

/// A closed session emits nothing more, whatever else the upstream sends.
pub proof fn lemma_finished_stays_silent(s: StreamSession, payloads: Seq<Seq<u8>>)
    requires
        s.finished,
    ensures
        spec_session_run(s, payloads).0 =~= Seq::<Seq<char>>::empty(),
        spec_session_run(s, payloads).1 == s,
    decreases payloads.len(),
{
    if payloads.len() > 0 {
        lemma_finished_stays_silent(s, payloads.drop_first());
    }
}

/// The terminal pair ends the translated stream: whatever follows the
/// completion event upstream, nothing is forwarded after `[DONE]`.
pub proof fn lemma_no_events_after_completed(s: StreamSession, p: Seq<u8>, rest: Seq<Seq<u8>>)
    requires
        !s.finished,
        spec_is_completed_payload(p),
    ensures
        spec_session_run(s, seq![p] + rest).0 =~= seq![
            spec_stop_frame(s.id@, s.created as int, s.model@),
            spec_done_frame(),
        ],
{
    let all = seq![p] + rest;
    assert(all[0] == p);
    assert(all.drop_first() =~= rest);
    lemma_terminal_order(s, p);
    lemma_finished_stays_silent(spec_session_step(s, p).1, rest);
}

/// All payloads carried by a frame list, in order.
pub open spec fn spec_payload_list(frames: Seq<Seq<u8>>) -> Seq<Seq<u8>>
    decreases frames.len(),
{
    if frames.len() == 0 {
        Seq::empty()
    } else {
        spec_frame_payloads(frames[0]) + spec_payload_list(frames.drop_first())
    }
}

proof fn lemma_payload_list_push(a: Seq<Seq<u8>>, f: Seq<u8>)
    ensures
        spec_payload_list(a.push(f)) == spec_payload_list(a) + spec_frame_payloads(f),
    decreases a.len(),
{
    if a.len() == 0 {
        assert(a.push(f)[0] == f);
        assert(a.push(f).drop_first() =~= Seq::<Seq<u8>>::empty());
        assert(spec_payload_list(a.push(f)) == spec_frame_payloads(a.push(f)[0])
            + spec_payload_list(a.push(f).drop_first()));
        assert(spec_payload_list(a.push(f)) =~= spec_payload_list(a) + spec_frame_payloads(f));
    } else {
        assert(a.push(f)[0] == a[0]);
        assert(a.push(f).drop_first() =~= a.drop_first().push(f));
        lemma_payload_list_push(a.drop_first(), f);
        assert(spec_payload_list(a.push(f)) =~= spec_payload_list(a) + spec_frame_payloads(f));
    }
}

proof fn lemma_payload_list_concat(a: Seq<Seq<u8>>, b: Seq<Seq<u8>>)
    ensures
        spec_payload_list(a + b) == spec_payload_list(a) + spec_payload_list(b),
    decreases a.len(),
{
    if a.len() == 0 {
        assert(a + b =~= b);
        assert(spec_payload_list(a) + spec_payload_list(b) =~= spec_payload_list(b));
    } else {
        assert((a + b)[0] == a[0]);
        assert((a + b).drop_first() =~= a.drop_first() + b);
        lemma_payload_list_concat(a.drop_first(), b);
        assert(spec_payload_list(a + b) =~= spec_payload_list(a) + spec_payload_list(b));
    }
}

/// What a bridge in a given state makes of one incoming chunk: the session
/// run over every payload the chunk completes.
pub open spec fn spec_bridge_outputs(s: StreamSession, pending: Seq<u8>, chunk: Seq<u8>) -> (Seq<
    Seq<char>,
>, StreamSession) {
    spec_session_run(s, spec_payload_list(spec_frames(pending + chunk)))
}

/// Chunk boundaries do not matter to the whole bridge either: handing the
/// upstream bytes over in two pieces forwards exactly the frames of the
/// whole, with the session state carried across.
pub proof fn lemma_bridge_chunk_boundaries(
    s: StreamSession,
    pending: Seq<u8>,
    x: Seq<u8>,
    y: Seq<u8>,
)
    ensures
        spec_bridge_outputs(s, pending, x + y).0 == spec_bridge_outputs(s, pending, x).0
            + spec_bridge_outputs(
            spec_bridge_outputs(s, pending, x).1,
            spec_tail(pending + x),
            y,
        ).0,
        spec_bridge_outputs(s, pending, x + y).1 == spec_bridge_outputs(
            spec_bridge_outputs(s, pending, x).1,
            spec_tail(pending + x),
            y,
        ).1,
        spec_tail(pending + (x + y)) == spec_tail(spec_tail(pending + x) + y),
{
    assert(pending + (x + y) =~= (pending + x) + y);
    lemma_stream_split(pending + x, y);
    lemma_payload_list_concat(
        spec_frames(pending + x),
        spec_frames(spec_tail(pending + x) + y),
    );
    lemma_run_concat(
        s,
        spec_payload_list(spec_frames(pending + x)),
        spec_payload_list(spec_frames(spec_tail(pending + x) + y)),
    );
}

/// The forwarding state of one translating stream: the reassembly buffer and
/// the session it feeds.
pub struct StreamBridge {
    pub reasm: SseReassembler,
    pub session: StreamSession,
}

impl StreamBridge {
    pub open spec fn wf(self) -> bool {
        self.reasm.wf()
    }

    pub fn new(session: StreamSession) -> (b: Self)
        ensures
            b.wf(),
            b.session == session,
            b.reasm.pending() == Seq::<u8>::empty(),
    {
        StreamBridge { reasm: SseReassembler::new(), session }
    }

    pub fn is_finished(&self) -> (r: bool)
        ensures
            r == self.session.finished,
    {
        self.session.is_finished()
    }

    /// Take in one upstream chunk and return the frames to send on, in order:
    /// the session run over every payload completed by this chunk.
    #[verifier::loop_isolation(false)]
    #[verifier::rlimit(100)]
    pub fn push_chunk(&mut self, chunk: &[u8]) -> (out: Vec<String>)
        requires
            old(self).wf(),
        ensures
            final(self).wf(),
            out@.map_values(|f: String| f@) == spec_bridge_outputs(
                old(self).session,
                old(self).reasm.pending(),
                chunk@,
            ).0,
            final(self).session == spec_bridge_outputs(
                old(self).session,
                old(self).reasm.pending(),
                chunk@,
            ).1,
            final(self).reasm.pending() == spec_tail(old(self).reasm.pending() + chunk@),
    {
        let ghost s0 = self.session;
        let frames = self.reasm.push_chunk(chunk);
        let ghost fviews = frames@.map_values(|f: Vec<u8>| f@);
        let mut payloads: Vec<Vec<u8>> = Vec::new();
        let nf = frames.len();
        let mut i: usize = 0;
        proof {
            assert(fviews.take(0) =~= Seq::<Seq<u8>>::empty());
            assert(payloads@.map_values(|p: Vec<u8>| p@) =~= spec_payload_list(fviews.take(0)));
        }
        while i < nf
            invariant
                i <= nf,
                payloads@.map_values(|p: Vec<u8>| p@) == spec_payload_list(
                    fviews.take(i as int),
                ),
            decreases nf - i,
        {
            let mut ps = frame_payloads(&frames[i]);
            let ghost psv = ps@.map_values(|p: Vec<u8>| p@);
            payloads.append(&mut ps);
            proof {
                assert(fviews.take(i + 1) =~= fviews.take(i as int).push(fviews[i as int]));
                lemma_payload_list_push(fviews.take(i as int), fviews[i as int]);
                assert(psv == spec_frame_payloads(fviews[i as int]));
                assert(payloads@.map_values(|p: Vec<u8>| p@) =~= spec_payload_list(
                    fviews.take(i + 1),
                ));
            }
            i = i + 1;
        }
        proof {
            assert(fviews.take(nf as int) =~= fviews);
        }
        let ghost pviews = payloads@.map_values(|p: Vec<u8>| p@);
        let mut out: Vec<String> = Vec::new();
        let np = payloads.len();
        let mut j: usize = 0;
        proof {
            assert(pviews.skip(0) =~= pviews);
            assert(out@.map_values(|f: String| f@) + spec_session_run(
                self.session,
                pviews.skip(0),
            ).0 =~= spec_session_run(s0, pviews).0);
        }
        let ghost reasm_after = self.reasm;
        while j < np
            invariant
                j <= np,
                np == payloads@.len(),
                self.reasm == reasm_after,
                spec_session_run(s0, pviews).0 == out@.map_values(|f: String| f@)
                    + spec_session_run(self.session, pviews.skip(j as int)).0,
                spec_session_run(s0, pviews).1 == spec_session_run(
                    self.session,
                    pviews.skip(j as int),
                ).1,
            decreases np - j,
        {
            proof {
                assert(pviews.skip(j as int)[0] == pviews[j as int]);
                assert(pviews.skip(j as int).drop_first() =~= pviews.skip(j + 1));
            }
            let ghost cur = self.session;
            let ghost prev_out = out@.map_values(|f: String| f@);
            let mut fs = self.session.process_payload(&payloads[j]);
            let ghost fsv = fs@.map_values(|f: String| f@);
            out.append(&mut fs);
            proof {
                assert(out@.map_values(|f: String| f@) =~= prev_out + fsv);
                assert(spec_session_run(cur, pviews.skip(j as int)).0 == fsv + spec_session_run(
                    self.session,
                    pviews.skip(j + 1),
                ).0);
                assert(spec_session_run(s0, pviews).0 =~= out@.map_values(|f: String| f@)
                    + spec_session_run(self.session, pviews.skip(j + 1)).0);
            }
            j = j + 1;
        }
        proof {
            assert(pviews.skip(np as int) =~= Seq::<Seq<u8>>::empty());
            assert(out@.map_values(|f: String| f@) =~= spec_session_run(s0, pviews).0);
        }
        out
    }
}

/// Relies on `uuid::Uuid::new_v4` and its hyphenated `Display` form: a fresh
/// random identifier always prints as 36 characters; nothing is assumed of
/// its value.
#[verifier::external_body]
fn fresh_uuid() -> (r: String)
    ensures
        r@.len() == 36,
{
    uuid::Uuid::new_v4().to_string()
}

/// Relies on `time::OffsetDateTime::now_utc`: the Unix timestamp of the
/// current wall-clock time; nothing is assumed of its value.
#[verifier::external_body]
fn unix_timestamp_now() -> i64 {
    time::OffsetDateTime::now_utc().unix_timestamp()
}

/// Open a fresh session: a new correlation id with the `chatcmpl-` prefix,
/// the current time, and the model name to stamp into every frame.
pub fn begin_session(model: &str) -> (s: StreamSession)
    ensures
        s.model@ == model@,
        !s.sent_role,
        !s.finished,
        s.id@.len() == 45,
        s.id@.take(9) == "chatcmpl-"@,
{
    let u = fresh_uuid();
    let mut cs = str_to_chars("chatcmpl-");
    let mut us = str_to_chars(u.as_str());
    cs.append(&mut us);
    let id = chars_to_string(&cs);
    let t = unix_timestamp_now();
    let created: u64 = if t < 0 {
        0
    } else {
        t as u64
    };
    proof {
        reveal_strlit("chatcmpl-");
        assert(id@.take(9) =~= "chatcmpl-"@);
    }
    StreamSession::new(id, created, new_string(model))
}

/// Bridge channel capacity: the queue between the forwarding task and the
/// response body is bounded, so a stalled consumer blocks the producer
/// instead of growing memory.
pub fn bridge_capacity(translating: bool) -> (c: usize)
    ensures
        c == (if translating {
            64int
        } else {
            16int
        }),
{
    if translating {
        64
    } else {
        16
    }
}

} // verus!
