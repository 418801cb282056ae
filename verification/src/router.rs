//! The request dispatcher.
//!
//! A request is matched against a fixed priority list of built-in
//! routes; anything unmatched falls through to the mock registry. The
//! dispatcher only decides: transport work that it cannot do itself
//! (serving a file from disk, completing the WebSocket handshake,
//! waiting out a registry delay) is returned as an `Outcome` for the
//! caller to perform.

use vstd::prelude::*;
use crate::json;
use crate::utils::{APIs, API, sp_find};

verus! {

/// One inbound request, reduced to plain values: the transport hands
/// these over and takes an `Outcome` back.
pub struct Request {
    pub method: String,
    pub path: String,
    pub query: Option<String>,
    pub headers: Vec<(String, String)>,
    pub body: Vec<u8>,
}

/// The content type a response is labelled with. Unmatched routes
/// answer with a JSON label even around a plain-text body; that quirk
/// is kept as observed behaviour.
pub enum ContentType {
    Json,
    PlainText,
    Unset,
}

/// A response body: framed text, or bytes echoed verbatim.
pub enum MsgBody {
    Text(String),
    Raw(Vec<u8>),
}

/// One outbound response.
pub struct Response {
    pub status: u16,
    pub content_type: ContentType,
    pub body: MsgBody,
}

/// What the dispatcher decided. `Respond` carries the artificial
/// delay in milliseconds to let pass — without blocking the worker —
/// before the response is sent; `ServeAsset` asks the caller to
/// stream a bundled file, answering 500 itself if the read fails;
/// `Upgrade` asks the caller to complete the WebSocket handshake and
/// detach an echo session.
pub enum Outcome {
    Respond { wait_ms: u64, response: Response },
    ServeAsset { path: String, content_type: ContentType },
    Upgrade,
}

/// Why a request body could not be used.
#[derive(Debug)]
pub enum BodyError {
    /// The transport failed while reading the body.
    HyperBodyRead,
    /// The body is not a JSON text.
    SerdeDeserialize,
}

/// Whether `r` is a text response with exactly this status, label and
/// text.
pub open spec fn sp_text_resp(r: Response, status: u16, ct: ContentType, text: Seq<char>) -> bool {
    &&& r.status == status
    &&& r.content_type == ct
    &&& r.body matches MsgBody::Text(s) && s@ == text
}

/// A text response labelled as JSON.
pub fn response(body: String, status: u16) -> (r: Response)
    ensures
        sp_text_resp(r, status, ContentType::Json, body@),
{
    Response { status: status, content_type: ContentType::Json, body: MsgBody::Text(body) }
}

// ---------------------------------------------------------------------------
// Upgrade detection
// ---------------------------------------------------------------------------

/// ASCII lower-casing of one character.
pub open spec fn sp_lower_char(c: char) -> char {
    if 65 <= c as u32 <= 90 {
        (c as u32 + 32) as char
    } else {
        c
    }
}

/// ASCII case-insensitive equality.
pub open spec fn sp_eq_nocase(a: Seq<char>, b: Seq<char>) -> bool {
    a.len() == b.len() && forall|k: int|
        0 <= k < a.len() ==> sp_lower_char(a[k]) == sp_lower_char(b[k])
}

/// ASCII whitespace, as trimmed around header list entries.
pub open spec fn sp_is_aws(c: char) -> bool {
    c == ' ' || c == '\t' || c == '\n' || c == '\u{c}' || c == '\r'
}

/// Length of the whitespace run at `i`.
pub open spec fn sp_aws_from(v: Seq<char>, i: int) -> nat
    decreases v.len() - i,
{
    if 0 <= i < v.len() && sp_is_aws(v[i]) {
        1 + sp_aws_from(v, i + 1)
    } else {
        0
    }
}

/// Length of the whitespace run ending just before `j`.
pub open spec fn sp_aws_back(v: Seq<char>, j: int) -> nat
    decreases j,
{
    if 0 < j <= v.len() && sp_is_aws(v[j - 1]) {
        1 + sp_aws_back(v, j - 1)
    } else {
        0
    }
}

/// `v` with ASCII whitespace trimmed from both ends.
pub open spec fn sp_trim(v: Seq<char>) -> Seq<char> {
    let a = sp_aws_from(v, 0);
    if a >= v.len() {
        Seq::empty()
    } else {
        v.subrange(a as int, v.len() - sp_aws_back(v, v.len() as int))
    }
}

/// Length of the run without a comma at `i`.
pub open spec fn sp_before_comma(v: Seq<char>, i: int) -> nat
    decreases v.len() - i,
{
    if 0 <= i < v.len() && v[i] != ',' {
        1 + sp_before_comma(v, i + 1)
    } else {
        0
    }
}

/// Whether the comma-separated list in `v[i..]` holds an entry that,
/// trimmed, equals `t` up to ASCII case.
pub open spec fn sp_has_token_from(v: Seq<char>, t: Seq<char>, i: int) -> bool
    decreases v.len() - i,
{
    if i < 0 || i > v.len() {
        false
    } else {
        let k = i + sp_before_comma(v, i);
        if k <= v.len() && sp_eq_nocase(sp_trim(v.subrange(i, k as int)), t) {
            true
        } else if k >= v.len() {
            false
        } else {
            sp_has_token_from(v, t, k + 1)
        }
    }
}

/// Whether some header named `name` (case-insensitively) lists the
/// token `t`.
pub open spec fn sp_header_has_token(
    hs: Seq<(String, String)>,
    name: Seq<char>,
    t: Seq<char>,
    i: int,
) -> bool
    decreases hs.len() - i,
{
    if i < 0 || i >= hs.len() {
        false
    } else if sp_eq_nocase(hs[i].0@, name) && sp_has_token_from(hs[i].1@, t, 0) {
        true
    } else {
        sp_header_has_token(hs, name, t, i + 1)
    }
}

/// The protocol-switch handshake: the connection header must list
/// `upgrade` and the upgrade header must list `websocket`, both up to
/// ASCII case.
pub open spec fn sp_upgrade_requested(hs: Seq<(String, String)>) -> bool {
    sp_header_has_token(hs, "connection"@, "upgrade"@, 0) && sp_header_has_token(
        hs,
        "upgrade"@,
        "websocket"@,
        0,
    )
}

fn lower_char(c: char) -> (r: char)
    ensures
        r == sp_lower_char(c),
{
    broadcast use vstd::utf8::char_u32_cast;

    let u: u32 = c as u32;
    if 65 <= u && u <= 90 {
        json::char_of_scalar(u + 32)
    } else {
        c
    }
}

fn chars_eq_nocase(a: &Vec<char>, b: &Vec<char>) -> (r: bool)
    ensures
        r == sp_eq_nocase(a@, b@),
{
    if a.len() != b.len() {
        return false;
    }
    let mut i: usize = 0;
    while i < a.len()
        invariant
            i <= a@.len(),
            a@.len() == b@.len(),
            forall|k: int| 0 <= k < i ==> sp_lower_char(a@[k]) == sp_lower_char(b@[k]),
        decreases a@.len() - i,
    {
        if !(lower_char(a[i]) == lower_char(b[i])) {
            return false;
        }
        i = i + 1;
    }
    true
}

fn aws_from(v: &Vec<char>, i: usize) -> (r: usize)
    requires
        i <= v@.len(),
    ensures
        r == sp_aws_from(v@, i as int),
        i + r <= v@.len(),
        i + r < v@.len() ==> !sp_is_aws(v@[i + r]),
{
    let mut j: usize = i;
    while j < v.len() && (v[j] == ' ' || v[j] == '\t' || v[j] == '\n' || v[j] == '\u{c}' || v[j]
        == '\r')
        invariant
            i <= j <= v@.len(),
            sp_aws_from(v@, i as int) == (j - i) + sp_aws_from(v@, j as int),
        decreases v@.len() - j,
    {
        j = j + 1;
    }
    j - i
}

fn aws_back(v: &Vec<char>, j: usize) -> (r: usize)
    requires
        j <= v@.len(),
    ensures
        r == sp_aws_back(v@, j as int),
        r <= j,
{
    let mut k: usize = j;
    while k > 0 && (v[k - 1] == ' ' || v[k - 1] == '\t' || v[k - 1] == '\n' || v[k - 1] == '\u{c}'
        || v[k - 1] == '\r')
        invariant
            k <= j <= v@.len(),
            sp_aws_back(v@, j as int) == (j - k) + sp_aws_back(v@, k as int),
        decreases k,
    {
        k = k - 1;
    }
    j - k
}

/// `v` with ASCII whitespace trimmed from both ends.
fn trim(v: &Vec<char>) -> (r: Vec<char>)
    ensures
        r@ == sp_trim(v@),
{
    let a: usize = aws_from(v, 0);
    if a >= v.len() {
        let r: Vec<char> = Vec::new();
        proof {
            assert(r@ =~= sp_trim(v@));
        }
        return r;
    }
    let back: usize = aws_back(v, v.len());
    proof {
        lemma_aws_back_stops(v@, v@.len() as int, a as int);
    }
    json::copy_range(v, a, v.len() - back)
}

/// The trailing whitespace run cannot reach back past a non-blank
/// character.
proof fn lemma_aws_back_stops(v: Seq<char>, j: int, a: int)
    requires
        0 <= a < j <= v.len(),
        !sp_is_aws(v[a]),
    ensures
        sp_aws_back(v, j) <= j - a - 1,
    decreases j,
{
    if 0 < j <= v.len() && sp_is_aws(v[j - 1]) {
        lemma_aws_back_stops(v, j - 1, a);
    }
}

fn before_comma(v: &Vec<char>, i: usize) -> (r: usize)
    requires
        i <= v@.len(),
    ensures
        r == sp_before_comma(v@, i as int),
        i + r <= v@.len(),
{
    let mut j: usize = i;
    while j < v.len() && !(v[j] == ',')
        invariant
            i <= j <= v@.len(),
            sp_before_comma(v@, i as int) == (j - i) + sp_before_comma(v@, j as int),
        decreases v@.len() - j,
    {
        j = j + 1;
    }
    j - i
}

fn has_token(v: &Vec<char>, t: &Vec<char>) -> (r: bool)
    ensures
        r == sp_has_token_from(v@, t@, 0),
{
    let n: usize = v.len();
    let mut i: usize = 0;
    loop
        invariant
            i <= v@.len(),
            n == v@.len(),
            sp_has_token_from(v@, t@, 0) == sp_has_token_from(v@, t@, i as int),
        decreases v@.len() - i,
    {
        let k: usize = i + before_comma(v, i);
        let seg: Vec<char> = json::copy_range(v, i, k);
        let trimmed: Vec<char> = trim(&seg);
        if chars_eq_nocase(&trimmed, t) {
            return true;
        }
        if k >= n {
            return false;
        }
        i = k + 1;
    }
}

fn header_has_token(hs: &Vec<(String, String)>, name: &Vec<char>, t: &Vec<char>) -> (r: bool)
    ensures
        r == sp_header_has_token(hs@, name@, t@, 0),
{
    let mut i: usize = 0;
    while i < hs.len()
        invariant
            i <= hs@.len(),
            sp_header_has_token(hs@, name@, t@, 0) == sp_header_has_token(
                hs@,
                name@,
                t@,
                i as int,
            ),
        decreases hs@.len() - i,
    {
        let hname: Vec<char> = json::str_chars(hs[i].0.as_str());
        if chars_eq_nocase(&hname, name) {
            let hval: Vec<char> = json::str_chars(hs[i].1.as_str());
            if has_token(&hval, t) {
                return true;
            }
        }
        i = i + 1;
    }
    false
}

/// Whether the request carries the protocol-switch headers.
pub fn upgrade_requested(hs: &Vec<(String, String)>) -> (r: bool)
    ensures
        r == sp_upgrade_requested(hs@),
{
    let connection: Vec<char> = json::str_chars("connection");
    let upgrade: Vec<char> = json::str_chars("upgrade");
    let websocket: Vec<char> = json::str_chars("websocket");
    header_has_token(hs, &connection, &upgrade) && header_has_token(hs, &upgrade, &websocket)
}

// ---------------------------------------------------------------------------
// The routes and what each answers
// ---------------------------------------------------------------------------

/// The built-in routes, in priority order, and the registry fallback.
pub enum Route {
    Health,
    SocketFile,
    Socket,
    ApiPost,
    ApiGet,
    Settings,
    PostRoot,
    Fallback,
}

/// Which route a request selects: the first applicable of the
/// built-in list, the fallback otherwise.
pub open spec fn sp_route(req: Request) -> Route {
    if req.method@ == "GET"@ && req.path@ == "/api/health/"@ {
        Route::Health
    } else if req.method@ == "GET"@ && req.path@ == "/socket/file/"@ {
        Route::SocketFile
    } else if req.method@ == "GET"@ && req.path@ == "/socket"@ {
        Route::Socket
    } else if req.method@ == "POST"@ && req.path@ == "/api/post"@ {
        Route::ApiPost
    } else if req.method@ == "GET"@ && req.path@ == "/api/get"@ {
        Route::ApiGet
    } else if req.method@ == "GET"@ && req.path@ == "/conver/settings/"@ {
        Route::Settings
    } else if req.method@ == "POST"@ && req.path@ == "/"@ {
        Route::PostRoot
    } else {
        Route::Fallback
    }
}

/// Whether `body` is a JSON text: valid UTF-8 that decodes to a
/// well-formed JSON value.
pub open spec fn sp_body_json_ok(body: Seq<u8>) -> bool {
    vstd::utf8::valid_utf8(body) && json::sp_is_json(vstd::utf8::decode_utf8(body))
}

/// The span of the decoded body's top-level value (meaningful when
/// the body is a JSON text).
pub open spec fn sp_body_span(body: Seq<u8>) -> Seq<char> {
    let d = vstd::utf8::decode_utf8(body);
    match json::sp_text_span(d) {
        Some((a, u)) => d.subrange(a, a + u),
        None => Seq::empty(),
    }
}

/// The headers object of the post echo: each header name once, at its
/// first occurrence and with that occurrence's value, as quoted JSON
/// members.
pub open spec fn sp_headers_from(hs: Seq<(String, String)>, i: int, first: bool) -> Seq<char>
    decreases hs.len() - i,
{
    if i < 0 || i >= hs.len() {
        Seq::empty()
    } else if exists|k: int| 0 <= k < i && #[trigger] hs[k].0@ == hs[i].0@ {
        sp_headers_from(hs, i + 1, first)
    } else {
        (if first {
            Seq::empty()
        } else {
            seq![',']
        }) + json::sp_quoted(hs[i].0@) + seq![':'] + json::sp_quoted(hs[i].1@) + sp_headers_from(
            hs,
            i + 1,
            false,
        )
    }
}

/// The echo reply of the post route: the request's body value, query
/// string and headers, framed as one JSON object.
pub open spec fn sp_post_echo(req: Request) -> Seq<char> {
    "{\"body\":"@ + sp_body_span(req.body@) + ",\"query\":"@ + (match req.query {
        Option::None => "null"@,
        Option::Some(q) => json::sp_quoted(q@),
    }) + ",\"headers\":{"@ + sp_headers_from(req.headers@, 0, true) + seq!['}', '}']
}

/// The body served for a registry hit: the stored payload, framed as
/// JSON with its success flag and its data text.
pub open spec fn sp_registry_body(success: bool, data: Seq<char>) -> Seq<char> {
    "{\"success\":"@ + (if success {
        "true"@
    } else {
        "false"@
    }) + ",\"data\":"@ + data + seq!['}']
}

/// Whether dispatching fails: only a body that is no JSON text on the
/// routes that decode their body.
pub open spec fn sp_dispatch_fails(req: Request) -> bool {
    (sp_route(req) == Route::ApiPost || sp_route(req) == Route::Fallback) && !sp_body_json_ok(
        req.body@,
    )
}

/// The dispatcher's full answer, route by route.
pub open spec fn sp_dispatch(req: Request, entries: Seq<API>, o: Outcome) -> bool {
    match sp_route(req) {
        Route::Health => o matches Outcome::Respond { wait_ms, response } && wait_ms == 0
            && sp_text_resp(response, 200, ContentType::Json, "{\"success\":true}"@),
        Route::SocketFile => o matches Outcome::ServeAsset { path, content_type } && path@
            == "web-socket.html"@ && content_type is Unset,
        Route::Socket => if sp_upgrade_requested(req.headers@) {
            o is Upgrade
        } else {
            o matches Outcome::Respond { wait_ms, response } && wait_ms == 0 && sp_text_resp(
                response,
                200,
                ContentType::Unset,
                "Hello HTTP!"@,
            )
        },
        Route::ApiPost => o matches Outcome::Respond { wait_ms, response } && wait_ms == 0
            && sp_text_resp(response, 200, ContentType::Json, sp_post_echo(req)),
        Route::ApiGet => o matches Outcome::Respond { wait_ms, response } && wait_ms == 0
            && response.status == 200 && response.content_type is Json && (response.body matches
        MsgBody::Raw(b) && b@ == req.body@),
        Route::Settings => o matches Outcome::ServeAsset { path, content_type } && path@
            == "conver-settings.toml"@ && content_type is PlainText,
        Route::PostRoot => o matches Outcome::Respond { wait_ms, response } && wait_ms == 0
            && sp_text_resp(response, 200, ContentType::Json, "POST Response"@),
        Route::Fallback => match sp_find(entries, req.method@, req.path@, 0) {
            Some(i) => o matches Outcome::Respond { wait_ms, response } && wait_ms == (
            match entries[i].wait {
                Some(w) => w,
                None => 0u64,
            }) && sp_text_resp(
                response,
                200,
                ContentType::Json,
                sp_registry_body(entries[i].response.success, entries[i].response.data@),
            ),
            None => o matches Outcome::Respond { wait_ms, response } && wait_ms == 0
                && sp_text_resp(response, 404, ContentType::Json, "NOT-FOUND"@),
        },
    }
}

/// Appends the post echo's headers object body to `out`.
fn push_headers_obj(out: &mut Vec<char>, hs: &Vec<(String, String)>)
    ensures
        final(out)@ == old(out)@ + sp_headers_from(hs@, 0, true),
{
    let mut first: bool = true;
    let mut i: usize = 0;
    while i < hs.len()
        invariant
            i <= hs@.len(),
            out@ + sp_headers_from(hs@, i as int, first) == old(out)@ + sp_headers_from(
                hs@,
                0,
                true,
            ),
        decreases hs@.len() - i,
    {
        let mut dup: bool = false;
        let mut k: usize = 0;
        while k < i
            invariant
                k <= i < hs@.len(),
                dup == exists|t: int| 0 <= t < k && #[trigger] hs@[t].0@ == hs@[i as int].0@,
            decreases i - k,
        {
            if crate::utils::str_eq(hs[k].0.as_str(), hs[i].0.as_str()) {
                dup = true;
            }
            k = k + 1;
        }
        if !dup {
            let ghost prev = out@;
            if !first {
                out.push(',');
            }
            let hname: Vec<char> = json::str_chars(hs[i].0.as_str());
            json::push_quoted(out, &hname);
            out.push(':');
            let hval: Vec<char> = json::str_chars(hs[i].1.as_str());
            json::push_quoted(out, &hval);
            proof {
                assert(out@ =~= prev + ((if first {
                    Seq::<char>::empty()
                } else {
                    seq![',']
                }) + json::sp_quoted(hs@[i as int].0@) + seq![':'] + json::sp_quoted(
                    hs@[i as int].1@,
                )));
                assert(out@ + sp_headers_from(hs@, i + 1, false) =~= old(out)@ + sp_headers_from(
                    hs@,
                    0,
                    true,
                ));
            }
            first = false;
        }
        i = i + 1;
    }
}

/// Dispatches one request: the built-in routes in priority order,
/// then the registry. A body that is no JSON text fails the two
/// routes that decode their body, and nothing else fails.
pub fn handler(req: Request, apis: &APIs) -> (r: Result<Outcome, BodyError>)
    ensures
        match r {
            Ok(o) => sp_dispatch(req, apis@, o),
            Err(e) => e is SerdeDeserialize,
        },
        r is Err <==> sp_dispatch_fails(req),
{
    let is_get: bool = crate::utils::str_eq(req.method.as_str(), "GET");
    let is_post: bool = crate::utils::str_eq(req.method.as_str(), "POST");
    if is_get && crate::utils::str_eq(req.path.as_str(), "/api/health/") {
        Ok(
            Outcome::Respond {
                wait_ms: 0,
                response: response(String::from_str("{\"success\":true}"), 200),
            },
        )
    } else if is_get && crate::utils::str_eq(req.path.as_str(), "/socket/file/") {
        Ok(
            Outcome::ServeAsset {
                path: String::from_str("web-socket.html"),
                content_type: ContentType::Unset,
            },
        )
    } else if is_get && crate::utils::str_eq(req.path.as_str(), "/socket") {
        if upgrade_requested(&req.headers) {
            Ok(Outcome::Upgrade)
        } else {
            Ok(
                Outcome::Respond {
                    wait_ms: 0,
                    response: Response {
                        status: 200,
                        content_type: ContentType::Unset,
                        body: MsgBody::Text(String::from_str("Hello HTTP!")),
                    },
                },
            )
        }
    } else if is_post && crate::utils::str_eq(req.path.as_str(), "/api/post") {
        let s: String = match json::string_from_utf8(&req.body) {
            None => {
                return Err(BodyError::SerdeDeserialize);
            },
            Some(s) => s,
        };
        let chars: Vec<char> = json::str_chars(s.as_str());
        let (a, u) = match json::text_span(&chars) {
            None => {
                return Err(BodyError::SerdeDeserialize);
            },
            Some(x) => x,
        };
        let mut out: Vec<char> = Vec::new();
        json::push_str_chars(&mut out, "{\"body\":");
        json::push_range(&mut out, &chars, a, a + u);
        json::push_str_chars(&mut out, ",\"query\":");
        match &req.query {
            None => json::push_str_chars(&mut out, "null"),
            Some(q) => {
                let qc: Vec<char> = json::str_chars(q.as_str());
                json::push_quoted(&mut out, &qc);
            },
        }
        json::push_str_chars(&mut out, ",\"headers\":{");
        push_headers_obj(&mut out, &req.headers);
        out.push('}');
        out.push('}');
        proof {
            assert(out@ =~= sp_post_echo(req));
        }
        Ok(
            Outcome::Respond {
                wait_ms: 0,
                response: response(json::chars_to_string(&out), 200),
            },
        )
    } else if is_get && crate::utils::str_eq(req.path.as_str(), "/api/get") {
        Ok(
            Outcome::Respond {
                wait_ms: 0,
                response: Response {
                    status: 200,
                    content_type: ContentType::Json,
                    body: MsgBody::Raw(req.body),
                },
            },
        )
    } else if is_get && crate::utils::str_eq(req.path.as_str(), "/conver/settings/") {
        Ok(
            Outcome::ServeAsset {
                path: String::from_str("conver-settings.toml"),
                content_type: ContentType::PlainText,
            },
        )
    } else if is_post && crate::utils::str_eq(req.path.as_str(), "/") {
        Ok(
            Outcome::Respond {
                wait_ms: 0,
                response: response(String::from_str("POST Response"), 200),
            },
        )
    } else {
        let s: String = match json::string_from_utf8(&req.body) {
            None => {
                return Err(BodyError::SerdeDeserialize);
            },
            Some(s) => s,
        };
        let chars: Vec<char> = json::str_chars(s.as_str());
        if !json::is_json_text(&chars) {
            return Err(BodyError::SerdeDeserialize);
        }
        match apis.find(req.method.as_str(), req.path.as_str()) {
            Some(i) => {
                let e: &API = apis.entry(i);
                let mut out: Vec<char> = Vec::new();
                json::push_str_chars(&mut out, "{\"success\":");
                if e.response.success {
                    json::push_str_chars(&mut out, "true");
                } else {
                    json::push_str_chars(&mut out, "false");
                }
                json::push_str_chars(&mut out, ",\"data\":");
                let data: Vec<char> = json::str_chars(e.response.data.as_str());
                json::push_range(&mut out, &data, 0, data.len());
                out.push('}');
                proof {
                    assert(data@.subrange(0, data@.len() as int) =~= data@);
                    assert(out@ =~= sp_registry_body(
                        apis@[i as int].response.success,
                        apis@[i as int].response.data@,
                    ));
                }
                let wait: u64 = match e.wait {
                    Some(w) => w,
                    None => 0,
                };
                Ok(
                    Outcome::Respond {
                        wait_ms: wait,
                        response: response(json::chars_to_string(&out), 200),
                    },
                )
            },
            None => Ok(
                Outcome::Respond {
                    wait_ms: 0,
                    response: response(String::from_str("NOT-FOUND"), 404),
                },
            ),
        }
    }
}

// ---------------------------------------------------------------------------
// Laws of the dispatcher
// ---------------------------------------------------------------------------

/// Law: a request whose method and path equal a registry entry's, and
/// for which that entry is the first such, is answered with status
/// 200, exactly that entry's payload, and that entry's delay.
pub proof fn lemma_registry_hit(req: Request, entries: Seq<API>, o: Outcome, j: int)
    requires
        sp_route(req) == Route::Fallback,
        sp_dispatch(req, entries, o),
        0 <= j < entries.len(),
        entries[j].method@ == req.method@,
        entries[j].path@ == req.path@,
        forall|t: int|
            0 <= t < j ==> !(#[trigger] entries[t].method@ == req.method@ && entries[t].path@
                == req.path@),
    ensures
        o matches Outcome::Respond { wait_ms, response } && sp_text_resp(
            response,
            200,
            ContentType::Json,
            sp_registry_body(entries[j].response.success, entries[j].response.data@),
        ) && wait_ms == (match entries[j].wait {
            Some(w) => w,
            None => 0u64,
        }),
{
    crate::utils::lemma_find_is_first(entries, req.method@, req.path@, 0);
}

/// Law: a request that selects no built-in route and matches no
/// registry entry is answered with status 404 and the literal
/// `NOT-FOUND` body.
pub proof fn lemma_not_found(req: Request, entries: Seq<API>, o: Outcome)
    requires
        sp_route(req) == Route::Fallback,
        sp_dispatch(req, entries, o),
        forall|t: int|
            0 <= t < entries.len() ==> !(#[trigger] entries[t].method@ == req.method@
                && entries[t].path@ == req.path@),
    ensures
        o matches Outcome::Respond { wait_ms, response } && wait_ms == 0 && sp_text_resp(
            response,
            404,
            ContentType::Json,
            "NOT-FOUND"@,
        ),
{
    crate::utils::lemma_find_is_first(entries, req.method@, req.path@, 0);
}

/// Law: the health route is answered with status 200 and the fixed
/// success payload, whatever the request's headers, query and body
/// hold and whatever the registry holds.
pub proof fn lemma_health_fixed(req: Request, entries: Seq<API>, o: Outcome)
    requires
        req.method@ == "GET"@,
        req.path@ == "/api/health/"@,
        sp_dispatch(req, entries, o),
    ensures
        o matches Outcome::Respond { wait_ms, response } && wait_ms == 0 && sp_text_resp(
            response,
            200,
            ContentType::Json,
            "{\"success\":true}"@,
        ),
{
}

} // verus!
