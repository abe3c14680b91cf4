//! Access control, configuration model, and the fixed endpoint bodies.
//!
//! The bearer gate admits a request only when auth is explicitly disabled or
//! the `Authorization` header carries exactly `Bearer <token>`; disabling
//! auth is itself only allowed on a loopback bind.

use vstd::prelude::*;
use crate::json::{Json, json_str};
use crate::strings::{str_to_chars, str_eq};
use crate::stream::new_string;

verus! {

/// Which API surfaces the gateway serves.
pub enum ApiMode {
    Openai,
    Mcp,
    Both,
}

/// The command line: bind address, port, bearer token, auth bypass, allowed
/// CORS origins, and the surface selection.
pub struct Cli {
    pub host: String,
    pub port: u16,
    pub token: Option<String>,
    pub no_auth: bool,
    pub cors_origins: Vec<String>,
    pub api: ApiMode,
}

/// Which of the two upstream wire protocols the configured provider speaks;
/// fixed for the life of the process.
pub enum WireKind {
    ChatCompletions,
    Responses,
}

/// How the upstream request is authenticated.
pub enum AuthMode {
    NoAuth,
    ChatGpt,
    ApiKey,
}

/// The auth context resolved once per request, immutable thereafter.
pub struct AuthContext {
    pub mode: AuthMode,
    pub account_id: Option<String>,
}

/// What the gateway needs of the provider configuration.
pub struct GatewayConfig {
    pub model: String,
    pub wire_api: WireKind,
    pub base_instructions: Option<String>,
    pub responses_originator_header: String,
}

/// Per-process state shared by every request handler.
pub struct AppState {
    pub cfg: GatewayConfig,
    pub bearer: Option<String>,
    pub allow_no_auth: bool,
}

/// The bearer gate's verdict, over the `Authorization` header value.
pub open spec fn spec_check_auth(
    header: Option<Seq<char>>,
    bearer: Option<Seq<char>>,
    allow_no_auth: bool,
) -> bool {
    if allow_no_auth {
        true
    } else {
        match bearer {
            None => false,
            Some(b) => match header {
                Some(h) => h.len() >= 7 && h.take(7) == "Bearer "@ && h.skip(7) == b,
                None => false,
            },
        }
    }
}

/// Admit a request: always under the explicit bypass, otherwise only with a
/// configured token and a header of exactly `Bearer <token>`.
#[verifier::loop_isolation(false)]
pub fn check_auth(header: Option<&str>, state: &AppState) -> (r: bool)
    ensures
        r == spec_check_auth(
            match header {
                Some(h) => Some(h@),
                None => None,
            },
            match state.bearer {
                Some(b) => Some(b@),
                None => None,
            },
            state.allow_no_auth,
        ),
{
    if state.allow_no_auth {
        return true;
    }
    let expected = match &state.bearer {
        Some(b) => b,
        None => {
            return false;
        },
    };
    let h = match header {
        Some(h) => h,
        None => {
            return false;
        },
    };
    let hc = str_to_chars(h);
    let pc = str_to_chars("Bearer ");
    proof {
        reveal_strlit("Bearer ");
    }
    if hc.len() < 7 {
        return false;
    }
    let mut i: usize = 0;
    while i < 7
        invariant
            i <= 7,
            hc@ == h@,
            pc@ == "Bearer "@,
            hc@.len() >= 7,
            forall|k: int| 0 <= k < i ==> hc@[k] == pc@[k],
        decreases 7 - i,
    {
        if hc[i] != pc[i] {
            proof {
                assert(h@.take(7)[i as int] != "Bearer "@[i as int]);
            }
            return false;
        }
        i = i + 1;
    }
    proof {
        assert(h@.take(7) =~= "Bearer "@);
    }
    let bc = str_to_chars(expected.as_str());
    let hlen = hc.len();
    if hlen - 7 != bc.len() {
        proof {
            assert(h@.skip(7).len() != expected@.len());
        }
        return false;
    }
    let mut j: usize = 0;
    while j < hlen - 7
        invariant
            j <= hlen - 7,
            hlen == hc@.len(),
            hc@ == h@,
            bc@ == expected@,
            hlen >= 7,
            hlen - 7 == bc@.len(),
            forall|k: int| 0 <= k < j ==> hc@[7 + k] == bc@[k],
        decreases hlen - 7 - j,
    {
        if hc[7 + j] != bc[j] {
            proof {
                assert(h@.skip(7)[j as int] != expected@[j as int]);
            }
            return false;
        }
        j = j + 1;
    }
    proof {
        assert(h@.skip(7) =~= expected@);
    }
    true
}

/// A loopback bind address.
pub open spec fn spec_is_loopback(h: Seq<char>) -> bool {
    h == "127.0.0.1"@ || h == "::1"@ || h == "localhost"@
}

pub fn is_loopback_host(host: &str) -> (r: bool)
    ensures
        r == spec_is_loopback(host@),
{
    str_eq(host, "127.0.0.1") || str_eq(host, "::1") || str_eq(host, "localhost")
}

/// Whether a bind is allowed: disabling auth is only allowed on loopback.
pub fn validate_bind(host: &str, no_auth: bool) -> (r: bool)
    ensures
        r == !(no_auth && !spec_is_loopback(host@)),
{
    !no_auth || is_loopback_host(host)
}

/// The gateway's error taxonomy.
pub enum GatewayError {
    InvalidRequest,
    Unauthorized,
    UpstreamConfigError,
    UpstreamTransportError,
    UpstreamPayloadError,
    UnsupportedSurface,
}

/// The outbound status each error surfaces as.
pub open spec fn spec_error_status(e: GatewayError) -> int {
    match e {
        GatewayError::InvalidRequest => 400,
        GatewayError::Unauthorized => 401,
        GatewayError::UnsupportedSurface => 501,
        GatewayError::UpstreamConfigError => 502,
        GatewayError::UpstreamTransportError => 502,
        GatewayError::UpstreamPayloadError => 502,
    }
}

pub fn error_status(e: &GatewayError) -> (s: u16)
    ensures
        s as int == spec_error_status(*e),
{
    match e {
        GatewayError::InvalidRequest => 400,
        GatewayError::Unauthorized => 401,
        GatewayError::UnsupportedSurface => 501,
        GatewayError::UpstreamConfigError => 502,
        GatewayError::UpstreamTransportError => 502,
        GatewayError::UpstreamPayloadError => 502,
    }
}

/// The uniform error envelope, exactly `{"error":{"message": msg}}`.
pub fn error_body(msg: &str) -> (r: Json)
    ensures
        r matches Json::Obj(pairs) && pairs@.len() == 1 && pairs@[0].0@ == "error"@ && (
        pairs@[0].1 matches Json::Obj(inner) && inner@.len() == 1 && inner@[0].0@ == "message"@
            && (inner@[0].1 matches Json::Str(m) && m@ == msg@)),
{
    let mut inner: Vec<(String, Json)> = Vec::new();
    inner.push((new_string("message"), json_str(msg)));
    let mut pairs: Vec<(String, Json)> = Vec::new();
    pairs.push((new_string("error"), Json::Obj(inner)));
    Json::Obj(pairs)
}

/// The health check body, exactly `{"status":"ok"}`.
pub fn healthz_body() -> (r: Json)
    ensures
        r matches Json::Obj(pairs) && pairs@.len() == 1 && pairs@[0].0@ == "status"@ && (
        pairs@[0].1 matches Json::Str(s) && s@ == "ok"@),
{
    let mut pairs: Vec<(String, Json)> = Vec::new();
    pairs.push((new_string("status"), json_str("ok")));
    Json::Obj(pairs)
}

/// The model listing body, exactly
/// `{"object":"list","data":[{"id": model, "object":"model"}]}`.
pub fn models_body(model: &str) -> (r: Json)
    ensures
        r matches Json::Obj(pairs) && pairs@.len() == 2 && pairs@[0].0@ == "object"@ && (
        pairs@[0].1 matches Json::Str(o) && o@ == "list"@) && pairs@[1].0@ == "data"@ && (
        pairs@[1].1 matches Json::Arr(items) && items@.len() == 1 && (
        items@[0] matches Json::Obj(ip) && ip@.len() == 2 && ip@[0].0@ == "id"@ && (
        ip@[0].1 matches Json::Str(m) && m@ == model@) && ip@[1].0@ == "object"@ && (
        ip@[1].1 matches Json::Str(t) && t@ == "model"@))),
{
    let mut ip: Vec<(String, Json)> = Vec::new();
    ip.push((new_string("id"), json_str(model)));
    ip.push((new_string("object"), json_str("model")));
    let mut items: Vec<Json> = Vec::new();
    items.push(Json::Obj(ip));
    let mut pairs: Vec<(String, Json)> = Vec::new();
    pairs.push((new_string("object"), json_str("list")));
    pairs.push((new_string("data"), Json::Arr(items)));
    Json::Obj(pairs)
}

/// Whether the Responses surface can be served: only the Responses-to-Chat
/// direction is translated, so a Chat-Completions provider cannot back it.
pub fn supports_responses_surface(w: &WireKind) -> (r: bool)
    ensures
        r == (w is Responses),
{
    match w {
        WireKind::Responses => true,
        WireKind::ChatCompletions => false,
    }
}

/// Map an upstream status to the outbound one: any status outside what the
/// outbound wire can carry becomes Bad Gateway.
pub fn map_status(s: u16) -> (r: u16)
    ensures
        r as int == (if 100 <= s && s <= 999 {
            s as int
        } else {
            502int
        }),
{
    if 100 <= s && s <= 999 {
        s
    } else {
        502
    }
}

} // verus!
