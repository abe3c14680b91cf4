//! Protocol translation between the Chat-Completions and Responses wire
//! shapes.
//!
//! Request direction: each chat message becomes one input item; the assistant
//! role maps to an `output_text` content part, every other role to
//! `input_text`; array content is concatenated with newline separators and
//! non-text parts are dropped.  Under ChatGPT auth the request stores
//! nothing and always carries the fixed base instruction text.  Response
//! direction (non-streaming): the upstream output text is collected into one
//! choice with `finish_reason: "stop"`, and the usage total defaults to
//! prompt plus completion tokens when the upstream leaves it out.

use vstd::prelude::*;
use crate::json::{
    Json, spec_get, spec_as_str, spec_as_u64, spec_obj_get, json_get, json_as_str, json_as_u64,
    json_as_arr, json_set, json_str, json_u64, spec_u64_dec,
};
use crate::stream::{spec_str_field, get_str_field};
use crate::strings::{str_to_chars, chars_to_string, str_eq};

verus! {

/// One inbound chat message: a role and its JSON content, which may be a
/// plain string or an array of typed parts.
pub struct ChatMessage {
    pub role: String,
    pub content: Json,
}

/// One step of the text-collection fold over array content: a part
/// contributes its `text` string, preceded by a newline separator when the
/// accumulator is not empty; parts without a text string are dropped.
pub open spec fn spec_fold_texts(items: Seq<Json>, acc: Seq<char>) -> Seq<char>
    decreases items.len(),
{
    if items.len() == 0 {
        acc
    } else {
        let next = match spec_str_field(items[0], "text"@) {
            Some(t) => if acc.len() == 0 {
                acc + t
            } else {
                acc + seq!['\n'] + t
            },
            None => acc,
        };
        spec_fold_texts(items.drop_first(), next)
    }
}

/// The text of a message's content: the string itself, the newline-joined
/// texts of an array of parts, or nothing.
pub open spec fn spec_message_text(content: Json) -> Seq<char> {
    match content {
        Json::Str(s) => s@,
        Json::Arr(items) => spec_fold_texts(items@, Seq::empty()),
        _ => Seq::empty(),
    }
}

/// The content part type an input item carries for a role.
pub open spec fn spec_part_type(role: Seq<char>) -> Seq<char> {
    if role == "assistant"@ {
        "output_text"@
    } else {
        "input_text"@
    }
}

/// A typed text part, exactly `{"type": ty, "text": text}`.
pub open spec fn spec_is_text_part(p: Json, ty: Seq<char>, text: Seq<char>) -> bool {
    &&& p matches Json::Obj(pairs)
    &&& pairs@.len() == 2
    &&& pairs@[0].0@ == "type"@
    &&& pairs@[0].1 matches Json::Str(t) && t@ == ty
    &&& pairs@[1].0@ == "text"@
    &&& pairs@[1].1 matches Json::Str(x) && x@ == text
}

/// The input item a chat message maps to: exactly
/// `{"role": m.role, "content": [one text part]}`.
pub open spec fn spec_is_input_item(item: Json, m: ChatMessage) -> bool {
    &&& item matches Json::Obj(pairs)
    &&& pairs@.len() == 2
    &&& pairs@[0].0@ == "role"@
    &&& pairs@[0].1 matches Json::Str(r) && r@ == m.role@
    &&& pairs@[1].0@ == "content"@
    &&& pairs@[1].1 matches Json::Arr(parts) && parts@.len() == 1 && spec_is_text_part(
        parts@[0],
        spec_part_type(m.role@),
        spec_message_text(m.content),
    )
}

/// Collect the text of array content, dropping non-text parts.
fn fold_texts(items: &Vec<Json>) -> (r: Vec<char>)
    ensures
        r@ == spec_fold_texts(items@, Seq::empty()),
{
    let n = items.len();
    let mut acc: Vec<char> = Vec::new();
    let mut i: usize = 0;
    proof {
        assert(items@.skip(0) =~= items@);
    }
    while i < n
        invariant
            i <= n,
            n == items@.len(),
            spec_fold_texts(items@, Seq::empty()) == spec_fold_texts(
                items@.skip(i as int),
                acc@,
            ),
        decreases n - i,
    {
        proof {
            assert(items@.skip(i as int)[0] == items@[i as int]);
            assert(items@.skip(i as int).drop_first() =~= items@.skip(i + 1));
        }
        let ghost prev = acc@;
        match get_str_field(&items[i], "text") {
            Some(t) => {
                if acc.len() > 0 {
                    acc.push('\n');
                }
                let mut ts = str_to_chars(t.as_str());
                acc.append(&mut ts);
                proof {
                    if prev.len() == 0 {
                        assert(acc@ =~= prev + t@);
                    } else {
                        assert(acc@ =~= prev + seq!['\n'] + t@);
                    }
                }
            },
            None => {},
        }
        i = i + 1;
    }
    proof {
        assert(items@.skip(n as int).len() == 0);
    }
    acc
}

/// The text of one message's content.
pub fn message_text(content: &Json) -> (r: String)
    ensures
        r@ == spec_message_text(*content),
{
    match content {
        Json::Str(s) => s.clone(),
        Json::Arr(items) => chars_to_string(&fold_texts(items)),
        _ => {
            proof {
                reveal_strlit("");
                assert(""@ =~= Seq::<char>::empty());
            }
            crate::stream::new_string("")
        },
    }
}

/// Map chat messages to the Responses `input` array: one item per message,
/// role kept, assistant text typed `output_text`, all other roles
/// `input_text`.
pub fn map_chat_messages_to_responses_input(messages: &Vec<ChatMessage>) -> (r: Json)
    ensures
        r matches Json::Arr(items) && items@.len() == messages@.len() && (forall|i: int|
            0 <= i < messages@.len() ==> spec_is_input_item(
                #[trigger] items@[i],
                messages@[i],
            )),
{
    let n = messages.len();
    let mut items: Vec<Json> = Vec::new();
    let mut i: usize = 0;
    while i < n
        invariant
            i <= n,
            n == messages@.len(),
            items@.len() == i,
            forall|k: int| 0 <= k < i ==> spec_is_input_item(#[trigger] items@[k], messages@[k]),
        decreases n - i,
    {
        let m = &messages[i];
        let text = message_text(&m.content);
        let is_assistant = str_eq(m.role.as_str(), "assistant");
        let ty = if is_assistant {
            "output_text"
        } else {
            "input_text"
        };
        let mut part_pairs: Vec<(String, Json)> = Vec::new();
        part_pairs.push((crate::stream::new_string("type"), json_str(ty)));
        part_pairs.push((crate::stream::new_string("text"), Json::Str(text)));
        let mut parts: Vec<Json> = Vec::new();
        parts.push(Json::Obj(part_pairs));
        let mut item_pairs: Vec<(String, Json)> = Vec::new();
        item_pairs.push((crate::stream::new_string("role"), Json::Str(m.role.clone())));
        item_pairs.push((crate::stream::new_string("content"), Json::Arr(parts)));
        items.push(Json::Obj(item_pairs));
        i = i + 1;
    }
    Json::Arr(items)
}

/// Whether every message's content has an admissible shape: a plain string
/// or an array of parts.  Anything else is an invalid request.
pub fn chat_messages_valid(messages: &Vec<ChatMessage>) -> (r: bool)
    ensures
        r == (forall|i: int|
            0 <= i < messages@.len() ==> ((#[trigger] messages@[i]).content is Str
                || messages@[i].content is Arr)),
{
    let n = messages.len();
    let mut i: usize = 0;
    while i < n
        invariant
            i <= n,
            n == messages@.len(),
            forall|k: int|
                0 <= k < i ==> ((#[trigger] messages@[k]).content is Str
                    || messages@[k].content is Arr),
        decreases n - i,
    {
        let ok = match &messages[i].content {
            Json::Str(_) => true,
            Json::Arr(_) => true,
            _ => false,
        };
        if !ok {
            return false;
        }
        i = i + 1;
    }
    true
}

/// Normalize an inbound chat request's header fields: the configured model
/// when none is named, and a stream flag that defaults to off.
pub fn normalize_chat_request(model: Option<String>, stream: Option<bool>, default_model: &str)
    -> (r: (String, bool))
    ensures
        r.0@ == (match model {
            Some(m) => m@,
            None => default_model@,
        }),
        r.1 == (match stream {
            Some(b) => b,
            None => false,
        }),
{
    let m = match model {
        Some(m) => m,
        None => crate::stream::new_string(default_model),
    };
    let s = match stream {
        Some(b) => b,
        None => false,
    };
    (m, s)
}

/// The upstream request built for the Responses surface: the model, the
/// mapped input, the fixed tool fields (tool calls are not translated), and
/// the stream flag.
pub fn build_responses_request(model: &str, input: Json, stream: bool) -> (r: Json)
    ensures
        r matches Json::Obj(pairs) && pairs@.len() == 7 && pairs@[0].0@ == "model"@ && (
        pairs@[0].1 matches Json::Str(m) && m@ == model@) && pairs@[1].0@ == "input"@
            && pairs@[1].1 == input && pairs@[2].0@ == "tools"@ && (
        pairs@[2].1 matches Json::Arr(ts) && ts@.len() == 0) && pairs@[3].0@ == "tool_choice"@
            && (pairs@[3].1 matches Json::Str(tc) && tc@ == "auto"@) && pairs@[4].0@
            == "parallel_tool_calls"@ && pairs@[4].1 == Json::Bool(false) && pairs@[5].0@
            == "stream"@ && pairs@[5].1 == Json::Bool(stream) && pairs@[6].0@ == "include"@ && (
        pairs@[6].1 matches Json::Arr(inc) && inc@.len() == 0),
{
    let mut pairs: Vec<(String, Json)> = Vec::new();
    pairs.push((crate::stream::new_string("model"), json_str(model)));
    pairs.push((crate::stream::new_string("input"), input));
    pairs.push((crate::stream::new_string("tools"), Json::Arr(Vec::new())));
    pairs.push((crate::stream::new_string("tool_choice"), json_str("auto")));
    pairs.push((crate::stream::new_string("parallel_tool_calls"), Json::Bool(false)));
    pairs.push((crate::stream::new_string("stream"), Json::Bool(stream)));
    pairs.push((crate::stream::new_string("include"), Json::Arr(Vec::new())));
    Json::Obj(pairs)
}

/// Prepare a Responses-surface body for the configured provider.
///
/// Under ChatGPT auth the provider contract requires `store: false` and the
/// fixed base instruction text, whatever the caller sent.  Otherwise a body
/// without a string `instructions` field gets the fallback text, and a body
/// that already carries one passes through unchanged.
pub fn prepare_responses_body(body: Json, chatgpt: bool, base: &str, fallback: &str) -> (r: Json)
    requires
        body is Obj,
    ensures
        r is Obj,
        chatgpt ==> spec_get(r, "store"@) == Some(Json::Bool(false)),
        chatgpt ==> spec_str_field(r, "instructions"@) == Some(base@),
        chatgpt ==> (forall|k2: Seq<char>|
            k2 != "store"@ && k2 != "instructions"@ ==> spec_get(r, k2) == spec_get(body, k2)),
        !chatgpt && spec_str_field(body, "instructions"@) is Some ==> r == body,
        !chatgpt && spec_str_field(body, "instructions"@) is None ==> spec_str_field(
            r,
            "instructions"@,
        ) == Some(fallback@) && (forall|k2: Seq<char>|
            k2 != "instructions"@ ==> spec_get(r, k2) == spec_get(body, k2)),
{
    proof {
        reveal_strlit("store");
        reveal_strlit("instructions");
        assert("store"@.len() != "instructions"@.len());
    }
    if chatgpt {
        let b1 = json_set(body, "store", Json::Bool(false));
        let b2 = json_set(b1, "instructions", json_str(base));
        b2
    } else {
        let has_instructions = match json_get(&body, "instructions") {
            Some(v) => json_as_str(v).is_some(),
            None => false,
        };
        if has_instructions {
            body
        } else {
            json_set(body, "instructions", json_str(fallback))
        }
    }
}

/// The `output` array of an upstream Responses payload, looked up directly or
/// nested under `response`.
pub open spec fn spec_output_field(v: Json) -> Option<Json> {
    match spec_get(v, "output"@) {
        Some(o) => Some(o),
        None => match spec_get(v, "response"@) {
            Some(rr) => spec_get(rr, "output"@),
            None => None,
        },
    }
}

pub open spec fn spec_output_items(v: Json) -> Seq<Json> {
    match spec_output_field(v) {
        Some(Json::Arr(items)) => items@,
        _ => Seq::empty(),
    }
}

/// Concatenated text of the `output_text` parts of one message item.
pub open spec fn spec_parts_text(parts: Seq<Json>) -> Seq<char>
    decreases parts.len(),
{
    if parts.len() == 0 {
        Seq::empty()
    } else {
        (if spec_str_field(parts[0], "type"@) == Some("output_text"@) {
            match spec_str_field(parts[0], "text"@) {
                Some(t) => t,
                None => Seq::empty(),
            }
        } else {
            Seq::empty()
        }) + spec_parts_text(parts.drop_first())
    }
}

/// Concatenated text of every `message`-typed item's `output_text` parts.
pub open spec fn spec_items_text(items: Seq<Json>) -> Seq<char>
    decreases items.len(),
{
    if items.len() == 0 {
        Seq::empty()
    } else {
        (if spec_str_field(items[0], "type"@) == Some("message"@) {
            match spec_get(items[0], "content"@) {
                Some(Json::Arr(ps)) => spec_parts_text(ps@),
                _ => Seq::empty(),
            }
        } else {
            Seq::empty()
        }) + spec_items_text(items.drop_first())
    }
}

/// The assistant text of an upstream Responses payload.
pub open spec fn spec_output_text(v: Json) -> Seq<char> {
    spec_items_text(spec_output_items(v))
}

/// The `usage` object, looked up directly or nested under `response`.
pub open spec fn spec_usage_field(v: Json) -> Option<Json> {
    match spec_get(v, "usage"@) {
        Some(u) => Some(u),
        None => match spec_get(v, "response"@) {
            Some(rr) => spec_get(rr, "usage"@),
            None => None,
        },
    }
}

/// A token count read out of the usage object, zero when absent.
pub open spec fn spec_usage_count(v: Json, key: Seq<char>) -> int {
    match spec_usage_field(v) {
        Some(u) => match spec_get(u, key) {
            Some(n) => match spec_as_u64(n) {
                Some(x) => x,
                None => 0,
            },
            None => 0,
        },
        None => 0,
    }
}

pub open spec fn spec_prompt_tokens(v: Json) -> int {
    spec_usage_count(v, "input_tokens"@)
}

pub open spec fn spec_completion_tokens(v: Json) -> int {
    spec_usage_count(v, "output_tokens"@)
}

/// The translated total: the upstream total when it is given, else prompt
/// plus completion (saturating at the 64-bit bound).
pub open spec fn spec_total_tokens(v: Json) -> int {
    match spec_usage_field(v) {
        Some(u) => match spec_get(u, "total_tokens"@) {
            Some(n) => match spec_as_u64(n) {
                Some(x) => x,
                None => spec_default_total(v),
            },
            None => spec_default_total(v),
        },
        None => spec_default_total(v),
    }
}

pub open spec fn spec_default_total(v: Json) -> int {
    if spec_prompt_tokens(v) + spec_completion_tokens(v) <= u64::MAX {
        spec_prompt_tokens(v) + spec_completion_tokens(v)
    } else {
        u64::MAX as int
    }
}

fn collect_parts_text(parts: &Vec<Json>, acc: &mut Vec<char>)
    ensures
        final(acc)@ == old(acc)@ + spec_parts_text(parts@),
{
    let n = parts.len();
    let mut i: usize = 0;
    proof {
        assert(parts@.skip(0) =~= parts@);
    }
    while i < n
        invariant
            i <= n,
            n == parts@.len(),
            old(acc)@ + spec_parts_text(parts@) == acc@ + spec_parts_text(
                parts@.skip(i as int),
            ),
        decreases n - i,
    {
        proof {
            assert(parts@.skip(i as int)[0] == parts@[i as int]);
            assert(parts@.skip(i as int).drop_first() =~= parts@.skip(i + 1));
        }
        let ghost prev = acc@;
        let is_output_text = match get_str_field(&parts[i], "type") {
            Some(t) => str_eq(t.as_str(), "output_text"),
            None => false,
        };
        if is_output_text {
            match get_str_field(&parts[i], "text") {
                Some(t) => {
                    let mut ts = str_to_chars(t.as_str());
                    acc.append(&mut ts);
                },
                None => {},
            }
        }
        proof {
            assert(old(acc)@ + spec_parts_text(parts@) =~= acc@ + spec_parts_text(
                parts@.skip(i + 1),
            ));
        }
        i = i + 1;
    }
    proof {
        assert(spec_parts_text(parts@.skip(n as int)).len() == 0);
        assert(final(acc)@ =~= old(acc)@ + spec_parts_text(parts@));
    }
}

fn collect_items_text(items: &Vec<Json>) -> (r: Vec<char>)
    ensures
        r@ == spec_items_text(items@),
{
    let n = items.len();
    let mut acc: Vec<char> = Vec::new();
    let mut i: usize = 0;
    proof {
        assert(items@.skip(0) =~= items@);
        assert(acc@ + spec_items_text(items@) =~= spec_items_text(items@));
    }
    while i < n
        invariant
            i <= n,
            n == items@.len(),
            spec_items_text(items@) == acc@ + spec_items_text(items@.skip(i as int)),
        decreases n - i,
    {
        proof {
            assert(items@.skip(i as int)[0] == items@[i as int]);
            assert(items@.skip(i as int).drop_first() =~= items@.skip(i + 1));
        }
        let is_message = match get_str_field(&items[i], "type") {
            Some(t) => str_eq(t.as_str(), "message"),
            None => false,
        };
        if is_message {
            match json_get(&items[i], "content") {
                Some(c) => match json_as_arr(c) {
                    Some(ps) => {
                        collect_parts_text(ps, &mut acc);
                    },
                    None => {},
                },
                None => {},
            }
        }
        proof {
            assert(spec_items_text(items@) =~= acc@ + spec_items_text(items@.skip(i + 1)));
        }
        i = i + 1;
    }
    proof {
        assert(spec_items_text(items@.skip(n as int)).len() == 0);
        assert(acc@ =~= spec_items_text(items@));
    }
    acc
}

/// The assistant text of an upstream payload.
pub fn output_text(v: &Json) -> (r: String)
    ensures
        r@ == spec_output_text(*v),
{
    let field = match json_get(v, "output") {
        Some(o) => Some(o),
        None => match json_get(v, "response") {
            Some(rr) => json_get(rr, "output"),
            None => None,
        },
    };
    match field {
        Some(o) => match json_as_arr(o) {
            Some(items) => chars_to_string(&collect_items_text(items)),
            None => {
                proof {
                    reveal_strlit("");
                    assert(""@ =~= Seq::<char>::empty());
                }
                crate::stream::new_string("")
            },
        },
        None => {
            proof {
                reveal_strlit("");
                assert(""@ =~= Seq::<char>::empty());
            }
            crate::stream::new_string("")
        },
    }
}

fn usage_field<'a>(v: &'a Json) -> (r: Option<&'a Json>)
    ensures
        match r {
            Some(u) => spec_usage_field(*v) == Some(*u),
            None => spec_usage_field(*v) is None,
        },
{
    match json_get(v, "usage") {
        Some(u) => Some(u),
        None => match json_get(v, "response") {
            Some(rr) => json_get(rr, "usage"),
            None => None,
        },
    }
}

fn usage_count(v: &Json, key: &str) -> (r: u64)
    ensures
        r as int == spec_usage_count(*v, key@),
{
    match usage_field(v) {
        Some(u) => match json_get(u, key) {
            Some(n) => match json_as_u64(n) {
                Some(x) => x,
                None => 0,
            },
            None => 0,
        },
        None => 0,
    }
}

/// The translated token totals of an upstream payload: prompt, completion,
/// and total, the total defaulting to prompt plus completion when the
/// upstream leaves it out.
pub fn usage_tokens(v: &Json) -> (r: (u64, u64, u64))
    ensures
        r.0 as int == spec_prompt_tokens(*v),
        r.1 as int == spec_completion_tokens(*v),
        r.2 as int == spec_total_tokens(*v),
{
    let p = usage_count(v, "input_tokens");
    let c = usage_count(v, "output_tokens");
    let dflt: u64 = if p <= u64::MAX - c {
        p + c
    } else {
        u64::MAX
    };
    let total = match usage_field(v) {
        Some(u) => match json_get(u, "total_tokens") {
            Some(n) => match json_as_u64(n) {
                Some(x) => x,
                None => dflt,
            },
            None => dflt,
        },
        None => dflt,
    };
    (p, c, total)
}

/// The non-streaming chat completion body: one assistant choice holding the
/// collected output text, with `finish_reason: "stop"` and the usage totals.
pub open spec fn spec_is_chat_completion(
    r: Json,
    id: Seq<char>,
    created: int,
    model: Seq<char>,
    text: Seq<char>,
    prompt: int,
    completion: int,
    total: int,
) -> bool {
    &&& r matches Json::Obj(pairs)
    &&& pairs@.len() == 6
    &&& pairs@[0].0@ == "choices"@
    &&& pairs@[0].1 matches Json::Arr(cs) && cs@.len() == 1 && spec_is_stop_choice(
        cs@[0],
        text,
    )
    &&& pairs@[1].0@ == "created"@ && (pairs@[1].1 matches Json::Num(n) && n@ == spec_u64_dec(
        created,
    ))
    &&& pairs@[2].0@ == "id"@ && (pairs@[2].1 matches Json::Str(i) && i@ == id)
    &&& pairs@[3].0@ == "model"@ && (pairs@[3].1 matches Json::Str(m) && m@ == model)
    &&& pairs@[4].0@ == "object"@ && (pairs@[4].1 matches Json::Str(o) && o@
        == "chat.completion"@)
    &&& pairs@[5].0@ == "usage"@ && spec_is_usage_obj(pairs@[5].1, prompt, completion, total)
}

pub open spec fn spec_is_stop_choice(c: Json, text: Seq<char>) -> bool {
    &&& c matches Json::Obj(pairs)
    &&& pairs@.len() == 3
    &&& pairs@[0].0@ == "finish_reason"@ && (pairs@[0].1 matches Json::Str(f) && f@ == "stop"@)
    &&& pairs@[1].0@ == "index"@ && (pairs@[1].1 matches Json::Num(z) && z@ == spec_u64_dec(0))
    &&& pairs@[2].0@ == "message"@
    &&& pairs@[2].1 matches Json::Obj(mp) && mp@.len() == 2 && mp@[0].0@ == "content"@ && (
    mp@[0].1 matches Json::Str(t) && t@ == text) && mp@[1].0@ == "role"@ && (
    mp@[1].1 matches Json::Str(a) && a@ == "assistant"@)
}

pub open spec fn spec_is_usage_obj(u: Json, prompt: int, completion: int, total: int) -> bool {
    &&& u matches Json::Obj(pairs)
    &&& pairs@.len() == 3
    &&& pairs@[0].0@ == "completion_tokens"@ && (pairs@[0].1 matches Json::Num(c) && c@
        == spec_u64_dec(completion))
    &&& pairs@[1].0@ == "prompt_tokens"@ && (pairs@[1].1 matches Json::Num(p) && p@
        == spec_u64_dec(prompt))
    &&& pairs@[2].0@ == "total_tokens"@ && (pairs@[2].1 matches Json::Num(t) && t@
        == spec_u64_dec(total))
}

/// Translate a non-streaming upstream Responses payload into the
/// Chat-Completions shape.
pub fn translate_responses_payload(v: &Json, id: &str, created: u64, model: &str) -> (r: Json)
    ensures
        spec_is_chat_completion(
            r,
            id@,
            created as int,
            model@,
            spec_output_text(*v),
            spec_prompt_tokens(*v),
            spec_completion_tokens(*v),
            spec_total_tokens(*v),
        ),
{
    let text = output_text(v);
    let tokens = usage_tokens(v);
    let mut msg_pairs: Vec<(String, Json)> = Vec::new();
    msg_pairs.push((crate::stream::new_string("content"), Json::Str(text)));
    msg_pairs.push((crate::stream::new_string("role"), json_str("assistant")));
    let mut choice_pairs: Vec<(String, Json)> = Vec::new();
    choice_pairs.push((crate::stream::new_string("finish_reason"), json_str("stop")));
    choice_pairs.push((crate::stream::new_string("index"), json_u64(0)));
    choice_pairs.push((crate::stream::new_string("message"), Json::Obj(msg_pairs)));
    let mut choices: Vec<Json> = Vec::new();
    choices.push(Json::Obj(choice_pairs));
    let mut usage_pairs: Vec<(String, Json)> = Vec::new();
    usage_pairs.push((crate::stream::new_string("completion_tokens"), json_u64(tokens.1)));
    usage_pairs.push((crate::stream::new_string("prompt_tokens"), json_u64(tokens.0)));
    usage_pairs.push((crate::stream::new_string("total_tokens"), json_u64(tokens.2)));
    let mut pairs: Vec<(String, Json)> = Vec::new();
    pairs.push((crate::stream::new_string("choices"), Json::Arr(choices)));
    pairs.push((crate::stream::new_string("created"), json_u64(created)));
    pairs.push((crate::stream::new_string("id"), json_str(id)));
    pairs.push((crate::stream::new_string("model"), json_str(model)));
    pairs.push((crate::stream::new_string("object"), json_str("chat.completion")));
    pairs.push((crate::stream::new_string("usage"), Json::Obj(usage_pairs)));
    Json::Obj(pairs)
}

/// When the upstream leaves the total out, the translated total is exactly
/// prompt plus completion tokens.
pub proof fn lemma_usage_total_default(v: Json)
    requires
        match spec_usage_field(v) {
            Some(u) => match spec_get(u, "total_tokens"@) {
                Some(n) => spec_as_u64(n) is None,
                None => true,
            },
            None => true,
        },
        spec_prompt_tokens(v) + spec_completion_tokens(v) <= u64::MAX,
    ensures
        spec_total_tokens(v) == spec_prompt_tokens(v) + spec_completion_tokens(v),
{
}

} // verus!
