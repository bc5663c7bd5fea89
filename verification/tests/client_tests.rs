use tapd_cli::client::{
    authorization_value, basic_auth_value, check_response, nick_of_user_info, parse_response,
    wecom_payload,
    wecom_reply, ClientError, ResponseError, TapdClient, WecomReply,
};
use tapd_cli::config::{Config, ConfigError};
use tapd_cli::params::{parse_params, ParamMap};

fn s(x: &str) -> String {
    x.to_string()
}

fn env(pairs: &[(&str, &str)]) -> Vec<(String, String)> {
    pairs.iter().map(|(k, v)| (s(k), s(v))).collect()
}

fn config_with(token: Option<&str>, user: Option<&str>, pass: Option<&str>) -> Config {
    Config {
        api_base_url: s("https://api.tapd.cn"),
        web_base_url: None,
        access_token: token.map(s),
        api_user: user.map(s),
        api_password: pass.map(s),
        bot_url: None,
        nick: None,
    }
}

#[test]
fn load_requires_credentials() {
    assert!(matches!(Config::load(&env(&[])), Err(ConfigError::MissingAuth)));
    assert!(matches!(
        Config::load(&env(&[("TAPD_API_USER", "u")])),
        Err(ConfigError::MissingAuth)
    ));
    assert!(matches!(
        Config::load(&env(&[("TAPD_ACCESS_TOKEN", ""), ("TAPD_API_USER", "u")])),
        Err(ConfigError::MissingAuth)
    ));
}

#[test]
fn load_with_token_uses_default_base_url() {
    let c = Config::load(&env(&[("TAPD_ACCESS_TOKEN", "tok"), ("BOT_URL", "")])).ok().unwrap();
    assert_eq!(c.api_base_url, "https://api.tapd.cn");
    assert_eq!(c.access_token, Some(s("tok")));
    assert_eq!(c.bot_url, None);
    assert!(c.is_cloud());
}

#[test]
fn load_with_user_and_password() {
    let c = Config::load(&env(&[
        ("TAPD_API_USER", "u"),
        ("TAPD_API_PASSWORD", "p"),
        ("TAPD_API_BASE_URL", "https://tapd.example.com/api"),
        ("TAPD_BASE_URL", "https://tapd.example.com"),
        ("CURRENT_USER_NICK", "张三"),
        ("BOT_URL", "https://bot"),
    ]))
    .ok()
    .unwrap();
    assert_eq!(c.api_base_url, "https://tapd.example.com/api");
    assert_eq!(c.web_base_url, Some(s("https://tapd.example.com")));
    assert_eq!(c.nick, Some(s("张三")));
    assert_eq!(c.bot_url, Some(s("https://bot")));
    assert!(!c.is_cloud());
}

#[test]
fn config_error_message() {
    assert_eq!(
        ConfigError::MissingAuth.message(),
        "认证未配置。请设置环境变量 TAPD_ACCESS_TOKEN，或同时设置 TAPD_API_USER 和 TAPD_API_PASSWORD"
    );
}

#[test]
fn bearer_token_header() {
    let c = config_with(Some("abc"), Some("u"), Some("p"));
    assert_eq!(authorization_value(&c), Some(s("Bearer abc")));
}

#[test]
fn basic_credentials_header() {
    let c = config_with(None, Some("u"), Some("p"));
    assert_eq!(authorization_value(&c), Some(s("Basic dTpw")));
    let c = config_with(None, Some("user"), Some("pa:ss"));
    assert_eq!(authorization_value(&c), Some(s("Basic dXNlcjpwYTpzcw==")));
    assert_eq!(basic_auth_value("xyz"), "Basic xyz");
}

#[test]
fn no_credentials_no_header() {
    let c = config_with(None, Some("u"), None);
    assert_eq!(authorization_value(&c), None);
}

#[test]
fn new_client_headers_and_settings() {
    let mut c = config_with(Some("t"), None, None);
    c.nick = Some(s("nick"));
    let client = TapdClient::new(&c);
    assert_eq!(
        client.headers,
        vec![
            (s("Content-Type"), s("application/json")),
            (s("Via"), s("mcp")),
            (s("Authorization"), s("Bearer t")),
        ]
    );
    assert!(client.is_cloud);
    assert_eq!(client.nick, Some(s("nick")));
    assert!(!client.needs_nick());
}

#[test]
fn urls() {
    let client = TapdClient::new(&config_with(Some("t"), None, None));
    assert_eq!(client.url("stories"), "https://api.tapd.cn/stories?s=mcp");
    assert_eq!(client.url("a?b=1"), "https://api.tapd.cn/a?b=1&s=mcp");
}

#[test]
fn response_checks() {
    assert!(check_response(200, s("{}")).is_ok());
    assert!(check_response(299, s("")).is_ok());
    assert!(matches!(check_response(401, s("token invalid")), Err(ResponseError::AuthFailed)));
    assert!(matches!(check_response(422, s("unauthorized")), Err(ResponseError::AuthFailed)));
    match check_response(401, s("nope")) {
        Err(ResponseError::Status { status, body }) => {
            assert_eq!(status, 401);
            assert_eq!(body, "nope");
        }
        _ => panic!("expected an API error"),
    }
    assert!(matches!(check_response(500, s("invalid")), Err(ResponseError::Status { .. })));
    assert!(matches!(check_response(300, s("")), Err(ResponseError::Status { .. })));
    assert_eq!(
        ResponseError::auth_failed_message(),
        "认证失败: 凭证无效或已过期，请检查 .env 中的认证配置"
    );
}

#[test]
fn user_info_outcomes() {
    let mut client = TapdClient::new(&config_with(Some("t"), None, None));
    assert!(client.needs_nick());
    assert!(client.apply_user_info(true, Err(s("HTTP 请求失败"))).is_ok());
    assert_eq!(client.nick, None);
    match client.apply_user_info(true, Err(s("认证失败: 凭证无效"))) {
        Err(e @ ClientError::InvalidCredentials { .. }) => {
            assert_eq!(e.message(), "凭证无效或已过期，请检查 TAPD_ACCESS_TOKEN 配置");
        }
        _ => panic!("expected a credential error"),
    }
    match client.apply_user_info(false, Err(s("认证失败"))) {
        Err(e) => assert_eq!(e.message(), "凭证无效或已过期，请检查 TAPD_API_USER / TAPD_API_PASSWORD 配置"),
        _ => panic!("expected a credential error"),
    }
    let answer: serde_json::Value =
        serde_json::from_str("{\"data\":{\"nick\":\"me\"}}").unwrap();
    assert!(client.apply_user_info(true, Ok(answer)).is_ok());
    assert_eq!(client.nick, Some(s("me")));
    let odd: serde_json::Value = serde_json::from_str("{\"data\":{\"nick\":5}}").unwrap();
    assert!(client.apply_user_info(true, Ok(odd)).is_ok());
    assert_eq!(client.nick, None);
}

#[test]
fn normalize_ids_converts_id_parameters_only() {
    let client = TapdClient::new(&config_with(Some("t"), None, None));
    let mut p = parse_params(&[
        s("workspace_id=42"),
        s("id=1,2"),
        s("entry_id=3"),
        s("object_id=1100000000000000001"),
        s("story_id=x"),
        s("owner=5"),
    ]);
    client.normalize_ids(&mut p);
    assert_eq!(p.get("id").cloned(), Some(s("1142000000001,1142000000002")));
    assert_eq!(p.get("entry_id").cloned(), Some(s("1142000000003")));
    assert_eq!(p.get("object_id").cloned(), Some(s("1100000000000000001")));
    assert_eq!(p.get("story_id").cloned(), Some(s("x")));
    assert_eq!(p.get("owner").cloned(), Some(s("5")));
    assert_eq!(p.get("workspace_id").cloned(), Some(s("42")));
}

#[test]
fn normalize_ids_needs_workspace() {
    let client = TapdClient::new(&config_with(Some("t"), None, None));
    let mut p = parse_params(&[s("id=1")]);
    client.normalize_ids(&mut p);
    assert_eq!(p.get("id").cloned(), Some(s("1")));
}

#[test]
fn nick_default_and_override() {
    let mut c = config_with(Some("t"), None, None);
    c.nick = Some(s("me"));
    let client = TapdClient::new(&c);
    let mut p = parse_params(&[s("creator=you")]);
    client.set_nick_default(&mut p, "creator");
    assert_eq!(p.get("creator").cloned(), Some(s("you")));
    client.set_nick_default(&mut p, "reporter");
    assert_eq!(p.get("reporter").cloned(), Some(s("me")));
    client.set_nick_override(&mut p, "creator");
    assert_eq!(p.get("creator").cloned(), Some(s("me")));

    let nobody = TapdClient::new(&config_with(Some("t"), None, None));
    let mut q = ParamMap::new();
    nobody.set_nick_override(&mut q, "owner");
    nobody.set_nick_default(&mut q, "owner");
    assert_eq!(q.len(), 0);
}

#[test]
fn wecom_message_type() {
    let p = wecom_payload("hello <@zhang>");
    assert_eq!(p.msgtype, "markdown");
    assert_eq!(p.content, "hello <@zhang>");
    assert_eq!(wecom_payload("# title").msgtype, "markdown_v2");
}

#[test]
fn parse_response_reads_json() {
    match parse_response(200, s("{\"status\":1,\"data\":[]}")) {
        Ok(v) => {
            assert_eq!(v.get("status").and_then(|x| x.as_i64()), Some(1));
            assert_eq!(v.get("data").and_then(|x| x.as_array()).map(|a| a.len()), Some(0));
        }
        Err(_) => panic!("expected JSON"),
    }
    assert!(matches!(parse_response(200, s("not json")), Err(ResponseError::InvalidJson)));
    assert!(matches!(parse_response(401, s("invalid token")), Err(ResponseError::AuthFailed)));
    assert!(matches!(parse_response(404, s("{}")), Err(ResponseError::Status { status: 404, .. })));
    assert_eq!(ResponseError::invalid_json_message(), "JSON 解析失败");
}

#[test]
fn wecom_reply_json_or_text() {
    match wecom_reply(s("{\"errcode\":0}")) {
        WecomReply::Json(v) => assert_eq!(v.get("errcode").and_then(|x| x.as_i64()), Some(0)),
        WecomReply::Text(_) => panic!("expected JSON"),
    }
    match wecom_reply(s("ok")) {
        WecomReply::Text(t) => assert_eq!(t, "ok"),
        WecomReply::Json(_) => panic!("expected text"),
    }
}

#[test]
fn normalize_ids_twice_is_once() {
    let client = TapdClient::new(&config_with(None, Some("u"), Some("p")));
    let mut p = parse_params(&[s("workspace_id=42"), s("id=1, 22 ,x"), s("story_id=9")]);
    client.normalize_ids(&mut p);
    let once = p.entries().clone();
    client.normalize_ids(&mut p);
    assert_eq!(p.entries().clone(), once);
    assert_eq!(p.get("id").cloned(), Some(s("1142000000001,1142000000022,x")));
}

#[test]
fn nick_of_user_info_reads_data_nick() {
    let v: serde_json::Value = serde_json::from_str("{\"data\":{\"nick\":\"张三\"}}").unwrap();
    assert_eq!(nick_of_user_info(&v), Some(s("张三")));
    let v: serde_json::Value = serde_json::from_str("{\"nick\":\"x\"}").unwrap();
    assert_eq!(nick_of_user_info(&v), None);
    let v: serde_json::Value = serde_json::from_str("[1]").unwrap();
    assert_eq!(nick_of_user_info(&v), None);
}

#[test]
fn env_opt_lookup() {
    let e = env(&[("A", "1"), ("B", ""), ("A", "2")]);
    assert_eq!(Config::env_opt(&e, "A"), Some(s("1")));
    assert_eq!(Config::env_opt(&e, "B"), None);
    assert_eq!(Config::env_opt(&e, "C"), None);
}
