//! The TAPD client's own state and the decisions it makes around each
//! HTTP exchange: headers, request URLs, ID normalisation, default nick
//! fields, response checks and the WeCom message body.

use base64::Engine;
use vstd::prelude::*;

use crate::config::{opt_view, Config};
use crate::ids::{lemma_long_ids_idempotent, long_ids, to_long_ids};
use crate::params::ParamMap;
use crate::text::{chars_of, contains_str, has_char, push_char, str_contains};

verus! {

/// What `base64::engine::general_purpose::STANDARD.encode` makes of the
/// UTF-8 bytes of a string.
pub uninterp spec fn base64_standard(input: Seq<char>) -> Seq<char>;

/// The encoder does not overflow `usize` computing the output length
/// (four characters for each started group of three input bytes).
pub open spec fn base64_fits(input: Seq<char>) -> bool {
    let n = vstd::utf8::encode_utf8(input).len();
    n / 3 * 4 + (if n % 3 > 0 { 4int } else { 0int }) <= usize::MAX
}

/// `base64::engine::general_purpose::STANDARD.encode`: standard alphabet,
/// with padding. The result is named, not stated; the encoder panics only
/// when the output length overflows `usize`, which `requires` excludes.
#[verifier::external_body]
fn base64_encode(input: &str) -> (r: String)
    requires
        base64_fits(input@),
    ensures
        r@ == base64_standard(input@),
{
    base64::engine::general_purpose::STANDARD.encode(input)
}

/// The `Authorization` header value for the given credentials: a bearer
/// token where there is an access token, else HTTP basic credentials of
/// `user:password` where both are set, else none.
pub open spec fn authorization(
    token: Option<Seq<char>>,
    user: Option<Seq<char>>,
    password: Option<Seq<char>>,
) -> Option<Seq<char>> {
    match token {
        Some(t) => Some("Bearer "@ + t),
        None => match (user, password) {
            (Some(u), Some(p)) => Some("Basic "@ + base64_standard(u + ":"@ + p)),
            _ => None,
        },
    }
}

/// The basic credentials of `config` can be encoded.
pub open spec fn credentials_fit(config: Config) -> bool {
    match (config.access_token, config.api_user, config.api_password) {
        (None, Some(u), Some(p)) => base64_fits(u@ + ":"@ + p@),
        _ => true,
    }
}

/// The header value for basic credentials already encoded.
pub fn basic_auth_value(encoded: &str) -> (r: String)
    ensures
        r@ == "Basic "@ + encoded@,
{
    let mut r = String::from_str("Basic ");
    r.append(encoded);
    r
}

/// The `Authorization` header value for `config`.
pub fn authorization_value(config: &Config) -> (r: Option<String>)
    requires
        credentials_fit(*config),
    ensures
        opt_view(r) == authorization(
            opt_view(config.access_token),
            opt_view(config.api_user),
            opt_view(config.api_password),
        ),
{
    match &config.access_token {
        Some(token) => {
            let mut v = String::from_str("Bearer ");
            v.append(token.as_str());
            Some(v)
        },
        None => match (&config.api_user, &config.api_password) {
            (Some(user), Some(pass)) => {
                let mut pair = user.clone();
                pair.append(":");
                pair.append(pass.as_str());
                let encoded = base64_encode(pair.as_str());
                Some(basic_auth_value(encoded.as_str()))
            },
            _ => None,
        },
    }
}

/// Why a response was refused.
pub enum ResponseError {
    /// The credentials were rejected.
    AuthFailed,
    /// Any other unsuccessful status, with the response body.
    Status { status: u16, body: String },
    /// A successful response whose body is not JSON.
    InvalidJson,
}

impl ResponseError {
    /// The message shown for a rejected credential; the message for other
    /// statuses names the status as the HTTP library prints it.
    pub fn auth_failed_message() -> (r: String)
        ensures
            r@ == "认证失败: 凭证无效或已过期，请检查 .env 中的认证配置"@,
    {
        String::from_str("认证失败: 凭证无效或已过期，请检查 .env 中的认证配置")
    }

    /// The message shown for a body that is not JSON.
    pub fn invalid_json_message() -> (r: String)
        ensures
            r@ == "JSON 解析失败"@,
    {
        String::from_str("JSON 解析失败")
    }
}

/// The status is in `200..300`.
pub open spec fn is_success(status: u16) -> bool {
    200 <= status < 300
}

/// What a response with this status and body amounts to.
pub open spec fn response_outcome(status: u16, body: Seq<char>) -> Option<bool> {
    if is_success(status) {
        None
    } else if (status == 401 || status == 422) && (contains_str(body, "invalid"@) || contains_str(
        body,
        "unauthorized"@,
    )) {
        Some(true)
    } else {
        Some(false)
    }
}

/// Checks an HTTP response before its body is read as JSON: a status in
/// `200..300` passes; 401 and 422 with a body that mentions `invalid` or
/// `unauthorized` are a credential failure; anything else is an API error
/// carrying the body.
pub fn check_response(status: u16, body: String) -> (r: Result<(), ResponseError>)
    ensures
        match response_outcome(status, body@) {
            None => r is Ok,
            Some(true) => r matches Err(ResponseError::AuthFailed),
            Some(false) => r matches Err(ResponseError::Status { status: s, body: b }) && s
                == status && b@ == body@,
        },
{
    if 200 <= status && status < 300 {
        return Ok(());
    }
    if status == 401 || status == 422 {
        if str_contains(body.as_str(), "invalid") || str_contains(body.as_str(), "unauthorized") {
            return Err(ResponseError::AuthFailed);
        }
    }
    Err(ResponseError::Status { status, body })
}

#[verifier::external_type_specification]
#[verifier::external_body]
pub struct ExJsonValue(serde_json::Value);

#[verifier::external_type_specification]
#[verifier::external_body]
pub struct ExJsonError(serde_json::Error);

/// Whether `serde_json::from_str::<serde_json::Value>` accepts a text.
pub uninterp spec fn json_accepts(text: Seq<char>) -> bool;

/// The value that `serde_json::from_str::<serde_json::Value>` reads from a
/// text it accepts.
pub uninterp spec fn json_value(text: Seq<char>) -> serde_json::Value;

/// `serde_json::from_str::<serde_json::Value>`: reads a JSON document. Which
/// texts it accepts, and the value it reads, are named, not stated; both
/// depend on the text alone.
#[verifier::external_body]
fn parse_json(text: &str) -> (r: Result<serde_json::Value, serde_json::Error>)
    ensures
        r is Ok <==> json_accepts(text@),
        r matches Ok(v) ==> v == json_value(text@),
{
    serde_json::from_str(text)
}

/// What `serde_json::Value::get` with a string key gives: the member of
/// that name of an object.
pub uninterp spec fn json_member(v: serde_json::Value, key: Seq<char>) -> Option<serde_json::Value>;

/// `serde_json::Value::get` with a string key. What it gives is named, not
/// stated; it depends on the value and the key alone.
#[verifier::external_body]
fn json_get<'a>(v: &'a serde_json::Value, key: &str) -> (r: Option<&'a serde_json::Value>)
    ensures
        match (r, json_member(*v, key@)) {
            (Some(x), Some(y)) => *x == y,
            (None, None) => true,
            _ => false,
        },
{
    v.get(key)
}

/// What `serde_json::Value::as_str` gives: the text of a JSON string.
pub uninterp spec fn json_string(v: serde_json::Value) -> Option<Seq<char>>;

/// `serde_json::Value::as_str`, the text copied into a `String`. What it
/// gives is named, not stated; it depends on the value alone.
#[verifier::external_body]
fn json_as_string(v: &serde_json::Value) -> (r: Option<String>)
    ensures
        opt_view(r) == json_string(*v),
{
    match v.as_str() {
        Some(t) => Some(t.to_string()),
        None => None,
    }
}

/// The nick in a `users/info` answer: the string at `data.nick`.
pub open spec fn user_info_nick(resp: serde_json::Value) -> Option<Seq<char>> {
    match json_member(resp, "data"@) {
        Some(d) => match json_member(d, "nick"@) {
            Some(n) => json_string(n),
            None => None,
        },
        None => None,
    }
}

/// Reads the nick out of a `users/info` answer.
pub fn nick_of_user_info(resp: &serde_json::Value) -> (r: Option<String>)
    ensures
        opt_view(r) == user_info_nick(*resp),
{
    match json_get(resp, "data") {
        Some(d) => match json_get(d, "nick") {
            Some(n) => json_as_string(n),
            None => None,
        },
        None => None,
    }
}

/// Reads a response that has been received: `check_response` first, then
/// the body as JSON.
pub fn parse_response(status: u16, body: String) -> (r: Result<serde_json::Value, ResponseError>)
    ensures
        match response_outcome(status, body@) {
            None => if json_accepts(body@) {
                r matches Ok(v) && v == json_value(body@)
            } else {
                r matches Err(ResponseError::InvalidJson)
            },
            Some(true) => r matches Err(ResponseError::AuthFailed),
            Some(false) => r matches Err(ResponseError::Status { status: s, body: b }) && s
                == status && b@ == body@,
        },
{
    let checked = check_response(status, body.clone());
    match checked {
        Ok(()) => match parse_json(body.as_str()) {
            Ok(v) => Ok(v),
            Err(_) => Err(ResponseError::InvalidJson),
        },
        Err(e) => Err(e),
    }
}

/// The answer of the WeCom robot: JSON where the reply is JSON, else the
/// reply text (sent on as `{"response": text}`).
pub enum WecomReply {
    Json(serde_json::Value),
    Text(String),
}

/// Reads the reply of the WeCom robot.
pub fn wecom_reply(text: String) -> (r: WecomReply)
    ensures
        r is Json <==> json_accepts(text@),
        r matches WecomReply::Json(v) ==> v == json_value(text@),
        r matches WecomReply::Text(t) ==> t@ == text@,
{
    match parse_json(text.as_str()) {
        Ok(v) => WecomReply::Json(v),
        Err(_) => WecomReply::Text(text),
    }
}

/// Why the client could not be set up.
pub enum ClientError {
    /// The credentials were rejected while looking up the user's nick; the
    /// hint names the settings to check.
    InvalidCredentials { hint: String },
}

impl ClientError {
    /// The message shown for this error.
    pub fn message(&self) -> (r: String)
        ensures
            match self {
                ClientError::InvalidCredentials { hint } => r@ == "凭证无效或已过期，请检查 "@
                    + hint@ + " 配置"@,
            },
    {
        match self {
            ClientError::InvalidCredentials { hint } => {
                let mut r = String::from_str("凭证无效或已过期，请检查 ");
                r.append(hint.as_str());
                r.append(" 配置");
                r
            },
        }
    }
}

/// The settings to check when credentials are rejected.
pub open spec fn auth_hint(has_token: bool) -> Seq<char> {
    if has_token {
        "TAPD_ACCESS_TOKEN"@
    } else {
        "TAPD_API_USER / TAPD_API_PASSWORD"@
    }
}

/// The fixed headers, then `Authorization` where credentials give one.
pub open spec fn header_views(auth: Option<Seq<char>>) -> Seq<(Seq<char>, Seq<char>)> {
    let fixed = seq![("Content-Type"@, "application/json"@), ("Via"@, "mcp"@)];
    match auth {
        Some(a) => fixed.push(("Authorization"@, a)),
        None => fixed,
    }
}

/// The URL of an API endpoint: the base URL, `/`, the endpoint, then
/// `s=mcp` after `?`, or after `&` where the URL already has a query.
pub open spec fn endpoint_url(base_url: Seq<char>, endpoint: Seq<char>) -> Seq<char> {
    let base = base_url + "/"@ + endpoint;
    base + seq![if base.contains('?') { '&' } else { '?' }] + "s=mcp"@
}

/// The parameters whose values are IDs.
pub open spec fn id_keys() -> Seq<Seq<char>> {
    seq!["id"@, "entry_id"@, "object_id"@, "story_id"@]
}

/// `m` with the IDs among `keys` converted, in turn, to long form.
pub open spec fn normalize_keys(
    m: Map<Seq<char>, Seq<char>>,
    keys: Seq<Seq<char>>,
    ws: Seq<char>,
    cloud: bool,
) -> Map<Seq<char>, Seq<char>>
    decreases keys.len(),
{
    if keys.len() == 0 {
        m
    } else {
        let p = normalize_keys(m, keys.drop_last(), ws, cloud);
        let k = keys.last();
        if p.contains_key(k) {
            p.insert(k, long_ids(p[k], ws, cloud))
        } else {
            p
        }
    }
}

/// What `normalize_ids` makes of `m`: where `m` has a workspace ID, each
/// of `id`, `entry_id`, `object_id` and `story_id` that `m` has is
/// converted to long form with it.
pub open spec fn normalized(m: Map<Seq<char>, Seq<char>>, cloud: bool) -> Map<Seq<char>, Seq<char>> {
    if m.contains_key("workspace_id"@) {
        normalize_keys(m, id_keys(), m["workspace_id"@], cloud)
    } else {
        m
    }
}

/// `m` with `field` set to the nick where there is one and `field` has no
/// value.
pub open spec fn nick_default(m: Map<Seq<char>, Seq<char>>, nick: Option<Seq<char>>, field: Seq<char>) -> Map<
    Seq<char>,
    Seq<char>,
> {
    match nick {
        Some(n) => if m.contains_key(field) { m } else { m.insert(field, n) },
        None => m,
    }
}

/// `m` with `field` set to the nick where there is one.
pub open spec fn nick_override(m: Map<Seq<char>, Seq<char>>, nick: Option<Seq<char>>, field: Seq<char>) -> Map<
    Seq<char>,
    Seq<char>,
> {
    match nick {
        Some(n) => m.insert(field, n),
        None => m,
    }
}

/// The body of a WeCom robot message: `markdown` where the text mentions
/// someone (holds `@`), else `markdown_v2`.
pub struct WecomPayload {
    pub msgtype: String,
    pub content: String,
}

/// The message type for a WeCom message text.
pub open spec fn wecom_msgtype(msg: Seq<char>) -> Seq<char> {
    if msg.contains('@') {
        "markdown"@
    } else {
        "markdown_v2"@
    }
}

/// The WeCom message body for `msg`.
pub fn wecom_payload(msg: &str) -> (r: WecomPayload)
    ensures
        r.msgtype@ == wecom_msgtype(msg@),
        r.content@ == msg@,
{
    let cs = chars_of(msg);
    let msgtype = if has_char(cs.as_slice(), '@') {
        String::from_str("markdown")
    } else {
        String::from_str("markdown_v2")
    };
    WecomPayload { msgtype, content: String::from_str(msg) }
}

/// The state of a TAPD API client: where it sends requests, with which
/// headers, and the settings its commands read.
pub struct TapdClient {
    pub base_url: String,
    pub headers: Vec<(String, String)>,
    pub is_cloud: bool,
    pub nick: Option<String>,
    pub bot_url: Option<String>,
    pub web_base_url: Option<String>,
}

/// The names and values of a list of headers.
pub open spec fn headers_view(h: Seq<(String, String)>) -> Seq<(Seq<char>, Seq<char>)> {
    h.map_values(|e: (String, String)| (e.0@, e.1@))
}

impl TapdClient {
    /// The client for `config`, before its nick is looked up.
    pub fn new(config: &Config) -> (r: TapdClient)
        requires
            credentials_fit(*config),
        ensures
            r.base_url@ == config.api_base_url@,
            headers_view(r.headers@) == header_views(
                authorization(
                    opt_view(config.access_token),
                    opt_view(config.api_user),
                    opt_view(config.api_password),
                ),
            ),
            r.is_cloud == contains_str(config.api_base_url@, "api.tapd.cn"@),
            opt_view(r.nick) == opt_view(config.nick),
            opt_view(r.bot_url) == opt_view(config.bot_url),
            opt_view(r.web_base_url) == opt_view(config.web_base_url),
    {
        let mut headers: Vec<(String, String)> = Vec::new();
        headers.push((String::from_str("Content-Type"), String::from_str("application/json")));
        headers.push((String::from_str("Via"), String::from_str("mcp")));
        let auth = authorization_value(config);
        match auth {
            Some(a) => {
                headers.push((String::from_str("Authorization"), a));
            },
            None => {},
        }
        let r = TapdClient {
            base_url: config.api_base_url.clone(),
            headers,
            is_cloud: config.is_cloud(),
            nick: config.nick.clone(),
            bot_url: config.bot_url.clone(),
            web_base_url: config.web_base_url.clone(),
        };
        assert(headers_view(r.headers@) =~= header_views(
            authorization(
                opt_view(config.access_token),
                opt_view(config.api_user),
                opt_view(config.api_password),
            ),
        ));
        r
    }

    /// The nick is not configured and has to be looked up.
    pub fn needs_nick(&self) -> (r: bool)
        ensures
            r == (self.nick is None),
    {
        self.nick.is_none()
    }

    /// Takes in the outcome of looking up the user (`users/info`): the
    /// answer, whose `data.nick` becomes the nick, or the message of the
    /// error. A message that mentions `认证失败` rejects the credentials;
    /// other errors leave the nick as it was.
    pub fn apply_user_info(
        &mut self,
        has_token: bool,
        outcome: Result<serde_json::Value, String>,
    ) -> (r: Result<(), ClientError>)
        ensures
            match outcome {
                Ok(v) => r is Ok && opt_view(final(self).nick) == user_info_nick(v),
                Err(m) => if contains_str(m@, "认证失败"@) {
                    r matches Err(ClientError::InvalidCredentials { hint }) && hint@ == auth_hint(
                        has_token,
                    ) && opt_view(final(self).nick) == opt_view(old(self).nick)
                } else {
                    r is Ok && opt_view(final(self).nick) == opt_view(old(self).nick)
                },
            },
            final(self).base_url == old(self).base_url,
            final(self).headers == old(self).headers,
            final(self).is_cloud == old(self).is_cloud,
            final(self).bot_url == old(self).bot_url,
            final(self).web_base_url == old(self).web_base_url,
    {
        match outcome {
            Ok(v) => {
                self.nick = nick_of_user_info(&v);
                Ok(())
            },
            Err(m) => {
                if str_contains(m.as_str(), "认证失败") {
                    let hint = if has_token {
                        String::from_str("TAPD_ACCESS_TOKEN")
                    } else {
                        String::from_str("TAPD_API_USER / TAPD_API_PASSWORD")
                    };
                    Err(ClientError::InvalidCredentials { hint })
                } else {
                    Ok(())
                }
            },
        }
    }

    /// The URL for `endpoint`.
    pub fn url(&self, endpoint: &str) -> (r: String)
        ensures
            r@ == endpoint_url(self.base_url@, endpoint@),
    {
        let mut base = self.base_url.clone();
        base.append("/");
        base.append(endpoint);
        let cs = chars_of(base.as_str());
        let sep = if has_char(cs.as_slice(), '?') {
            '&'
        } else {
            '?'
        };
        push_char(&mut base, sep);
        base.append("s=mcp");
        base
    }

    /// `to_long_ids` with this client's prefix.
    pub fn to_long_ids(&self, id_str: &str, workspace_id: &str) -> (r: String)
        ensures
            r@ == long_ids(id_str@, workspace_id@, self.is_cloud),
    {
        to_long_ids(id_str, workspace_id, self.is_cloud)
    }

    /// Converts the value of `key`, if any, to long form.
    fn normalize_key(&self, params: &mut ParamMap, key: &str, ws: &String)
        ensures
            final(params)@ == (if old(params)@.contains_key(key@) {
                old(params)@.insert(key@, long_ids(old(params)@[key@], ws@, self.is_cloud))
            } else {
                old(params)@
            }),
    {
        let current = match params.get(key) {
            Some(v) => Some(v.clone()),
            None => None,
        };
        match current {
            Some(val) => {
                let converted = self.to_long_ids(val.as_str(), ws.as_str());
                params.insert(String::from_str(key), converted);
            },
            None => {},
        }
    }

    /// Converts short IDs (at most nine digits) in the ID parameters to
    /// TAPD's long form, where the parameters hold a workspace ID.
    pub fn normalize_ids(&self, params: &mut ParamMap)
        ensures
            final(params)@ == normalized(old(params)@, self.is_cloud),
    {
        let ws = match params.get("workspace_id") {
            Some(w) => w.clone(),
            None => return ,
        };
        let ghost m0 = params@;
        assert(id_keys().drop_last() =~= seq!["id"@, "entry_id"@, "object_id"@]);
        let ghost c = self.is_cloud;
        assert(normalize_keys(m0, Seq::<Seq<char>>::empty(), ws@, c) == m0);
        self.normalize_key(params, "id", &ws);
        assert(params@ == normalize_keys(m0, seq!["id"@], ws@, c)) by {
            assert(seq!["id"@].drop_last() =~= Seq::<Seq<char>>::empty());
        }
        self.normalize_key(params, "entry_id", &ws);
        assert(params@ == normalize_keys(m0, seq!["id"@, "entry_id"@], ws@, c)) by {
            assert(seq!["id"@, "entry_id"@].drop_last() =~= seq!["id"@]);
        }
        self.normalize_key(params, "object_id", &ws);
        assert(params@ == normalize_keys(m0, seq!["id"@, "entry_id"@, "object_id"@], ws@, c)) by {
            assert(seq!["id"@, "entry_id"@, "object_id"@].drop_last() =~= seq!["id"@, "entry_id"@]);
        }
        self.normalize_key(params, "story_id", &ws);
        assert(params@ == normalize_keys(m0, id_keys(), ws@, c));
    }

    /// Sets `field` to the nick, if there is a nick and `field` has no value.
    pub fn set_nick_default(&self, params: &mut ParamMap, field: &str)
        ensures
            final(params)@ == nick_default(old(params)@, opt_view(self.nick), field@),
    {
        match &self.nick {
            Some(nick) => {
                params.insert_if_absent(String::from_str(field), nick.clone());
            },
            None => {},
        }
    }

    /// Sets `field` to the nick, if there is a nick.
    pub fn set_nick_override(&self, params: &mut ParamMap, field: &str)
        ensures
            final(params)@ == nick_override(old(params)@, opt_view(self.nick), field@),
    {
        match &self.nick {
            Some(nick) => {
                params.insert(String::from_str(field), nick.clone());
            },
            None => {},
        }
    }
}


proof fn lemma_normalize_keys(
    m: Map<Seq<char>, Seq<char>>,
    keys: Seq<Seq<char>>,
    ws: Seq<char>,
    cloud: bool,
)
    requires
        forall|i: int, j: int| 0 <= i < j < keys.len() ==> keys[i] != keys[j],
    ensures
        forall|k: Seq<char>| #[trigger]
            normalize_keys(m, keys, ws, cloud).contains_key(k) == m.contains_key(k),
        forall|k: Seq<char>| #[trigger]
            m.contains_key(k) ==> normalize_keys(m, keys, ws, cloud)[k] == (if keys.contains(k) {
                long_ids(m[k], ws, cloud)
            } else {
                m[k]
            }),
    decreases keys.len(),
{
    if keys.len() > 0 {
        let dl = keys.drop_last();
        assert forall|i: int, j: int| 0 <= i < j < dl.len() implies dl[i] != dl[j] by {
            assert(keys[i] != keys[j]);
        }
        lemma_normalize_keys(m, dl, ws, cloud);
        let last = keys.last();
        let p = normalize_keys(m, dl, ws, cloud);
        assert forall|k: Seq<char>| #[trigger]
            normalize_keys(m, keys, ws, cloud).contains_key(k) == m.contains_key(k) by {
            assert(p.contains_key(k) == m.contains_key(k));
        }
        assert(!dl.contains(last)) by {
            if dl.contains(last) {
                let i = choose|i: int| 0 <= i < dl.len() && dl[i] == last;
                assert(keys[i] != keys[keys.len() - 1]);
            }
        }
        assert forall|k: Seq<char>| #[trigger] keys.contains(k) == (dl.contains(k) || k == last) by {
            if keys.contains(k) && k != last {
                let i = choose|i: int| 0 <= i < keys.len() && keys[i] == k;
                assert(dl[i] == k);
            }
            if dl.contains(k) {
                let i = choose|i: int| 0 <= i < dl.len() && dl[i] == k;
                assert(keys[i] == k);
            }
            if k == last {
                assert(keys[keys.len() - 1] == k);
            }
        }
    }
}

/// What `normalize_ids` promises: the same parameters come out; where
/// there is a workspace ID, each ID parameter holds its long form and
/// every other parameter, the workspace ID among them, is unchanged.
pub proof fn lemma_normalized(m: Map<Seq<char>, Seq<char>>, cloud: bool)
    ensures
        normalized(m, cloud).dom() == m.dom(),
        forall|k: Seq<char>| #[trigger]
            m.contains_key(k) ==> normalized(m, cloud)[k] == (if m.contains_key("workspace_id"@)
                && id_keys().contains(k) {
                long_ids(m[k], m["workspace_id"@], cloud)
            } else {
                m[k]
            }),
{
    reveal_strlit("id");
    reveal_strlit("entry_id");
    reveal_strlit("object_id");
    reveal_strlit("story_id");
    reveal_strlit("workspace_id");
    let ks = id_keys();
    assert(ks[0] == "id"@ && ks[1] == "entry_id"@ && ks[2] == "object_id"@ && ks[3] == "story_id"@);
    assert forall|i: int, j: int| 0 <= i < j < ks.len() implies ks[i] != ks[j] by {
        assert(ks[i].len() != ks[j].len() || ks[i][0] != ks[j][0]);
    }
    if m.contains_key("workspace_id"@) {
        lemma_normalize_keys(m, ks, m["workspace_id"@], cloud);
    }
    assert(normalized(m, cloud).dom() =~= m.dom());
}

/// Normalising IDs twice is normalising them once: IDs already in long
/// form are left as they are (for a workspace ID without a comma).
pub proof fn lemma_normalized_idempotent(m: Map<Seq<char>, Seq<char>>, cloud: bool)
    requires
        m.contains_key("workspace_id"@) ==> !m["workspace_id"@].contains(','),
    ensures
        normalized(normalized(m, cloud), cloud) == normalized(m, cloud),
{
    let n = normalized(m, cloud);
    lemma_normalized(m, cloud);
    lemma_normalized(n, cloud);
    reveal_strlit("workspace_id");
    reveal_strlit("id");
    reveal_strlit("entry_id");
    reveal_strlit("object_id");
    reveal_strlit("story_id");
    let ks = id_keys();
    assert(ks[0] == "id"@ && ks[1] == "entry_id"@ && ks[2] == "object_id"@ && ks[3] == "story_id"@);
    assert(!ks.contains("workspace_id"@)) by {
        if ks.contains("workspace_id"@) {
            let i = choose|i: int| 0 <= i < ks.len() && ks[i] == "workspace_id"@;
            assert(ks[i].len() != "workspace_id"@.len());
        }
    }
    assert forall|k: Seq<char>| #[trigger] n.contains_key(k) implies normalized(n, cloud)[k] == n[k] by {
        if m.contains_key("workspace_id"@) && ks.contains(k) {
            lemma_long_ids_idempotent(m[k], m["workspace_id"@], cloud);
        }
    }
    assert(normalized(n, cloud) =~= n);
}

} // verus!
