//! Configuration from the environment: credentials, service address and
//! optional settings.

use vstd::prelude::*;

use crate::text::{contains_str, str_contains, str_eq};

verus! {

/// The first value given for `key` in `env`, if any.
pub open spec fn env_lookup(env: Seq<(Seq<char>, Seq<char>)>, key: Seq<char>) -> Option<Seq<char>>
    decreases env.len(),
{
    if env.len() == 0 {
        None
    } else if env[0].0 == key {
        Some(env[0].1)
    } else {
        env_lookup(env.drop_first(), key)
    }
}

/// The value of `key`, where it is set and not empty.
pub open spec fn env_opt(env: Seq<(Seq<char>, Seq<char>)>, key: Seq<char>) -> Option<Seq<char>> {
    match env_lookup(env, key) {
        Some(v) => if v.len() > 0 { Some(v) } else { None },
        None => None,
    }
}

/// The contents of an optional string.
pub open spec fn opt_view(o: Option<String>) -> Option<Seq<char>> {
    match o {
        Some(s) => Some(s@),
        None => None,
    }
}

/// The names and values of environment variables.
pub open spec fn env_views(env: Seq<(String, String)>) -> Seq<(Seq<char>, Seq<char>)> {
    env.map_values(|e: (String, String)| (e.0@, e.1@))
}

/// The service address used when `TAPD_API_BASE_URL` is not set.
pub open spec fn default_api_base_url() -> Seq<char> {
    "https://api.tapd.cn"@
}

/// Neither an access token nor both API user and password are set.
pub open spec fn auth_missing(env: Seq<(Seq<char>, Seq<char>)>) -> bool {
    env_opt(env, "TAPD_ACCESS_TOKEN"@) is None && (env_opt(env, "TAPD_API_USER"@) is None
        || env_opt(env, "TAPD_API_PASSWORD"@) is None)
}

/// Why the configuration could not be loaded.
pub enum ConfigError {
    /// No access token, and not both API user and password.
    MissingAuth,
}

impl ConfigError {
    /// The message shown for this error.
    pub fn message(&self) -> (r: String)
        ensures
            r@ == "认证未配置。请设置环境变量 TAPD_ACCESS_TOKEN，或同时设置 TAPD_API_USER 和 TAPD_API_PASSWORD"@,
    {
        String::from_str("认证未配置。请设置环境变量 TAPD_ACCESS_TOKEN，或同时设置 TAPD_API_USER 和 TAPD_API_PASSWORD")
    }
}

/// The client's configuration.
pub struct Config {
    pub api_base_url: String,
    pub web_base_url: Option<String>,
    pub access_token: Option<String>,
    pub api_user: Option<String>,
    pub api_password: Option<String>,
    pub bot_url: Option<String>,
    pub nick: Option<String>,
}

impl Config {
    /// The value of the variable `key` in `env` (name/value pairs, the first
    /// pair with that name counting), where it is set and not empty.
    pub fn env_opt(env: &[(String, String)], key: &str) -> (r: Option<String>)
        ensures
            opt_view(r) == env_opt(env_views(env@), key@),
    {
        let ghost e = env_views(env@);
        assert(e.skip(0) =~= e);
        let mut i: usize = 0;
        while i < env.len()
            invariant
                i <= env@.len(),
                e == env_views(env@),
                env_lookup(e, key@) == env_lookup(e.skip(i as int), key@),
            decreases env@.len() - i,
        {
            let ghost rest = e.skip(i as int);
            assert(rest[0] == e[i as int]);
            if str_eq(env[i].0.as_str(), key) {
                if env[i].1.as_str().is_empty() {
                    return None;
                }
                return Some(env[i].1.clone());
            }
            assert(rest.drop_first() =~= e.skip(i + 1));
            i = i + 1;
        }
        assert(e.skip(i as int) =~= Seq::<(Seq<char>, Seq<char>)>::empty());
        None
    }

    /// Loads the configuration from environment variables, given as
    /// name/value pairs; a variable set to the empty string counts as unset.
    /// Fails when neither `TAPD_ACCESS_TOKEN` nor both `TAPD_API_USER` and
    /// `TAPD_API_PASSWORD` are set.
    pub fn load(env: &[(String, String)]) -> (r: Result<Config, ConfigError>)
        ensures
            r is Err <==> auth_missing(env_views(env@)),
            r matches Ok(c) ==> {
                let e = env_views(env@);
                &&& c.api_base_url@ == (match env_opt(e, "TAPD_API_BASE_URL"@) {
                    Some(v) => v,
                    None => default_api_base_url(),
                })
                &&& opt_view(c.web_base_url) == env_opt(e, "TAPD_BASE_URL"@)
                &&& opt_view(c.access_token) == env_opt(e, "TAPD_ACCESS_TOKEN"@)
                &&& opt_view(c.api_user) == env_opt(e, "TAPD_API_USER"@)
                &&& opt_view(c.api_password) == env_opt(e, "TAPD_API_PASSWORD"@)
                &&& opt_view(c.bot_url) == env_opt(e, "BOT_URL"@)
                &&& opt_view(c.nick) == env_opt(e, "CURRENT_USER_NICK"@)
            },
    {
        let access_token = Self::env_opt(env, "TAPD_ACCESS_TOKEN");
        let api_user = Self::env_opt(env, "TAPD_API_USER");
        let api_password = Self::env_opt(env, "TAPD_API_PASSWORD");
        if access_token.is_none() && (api_user.is_none() || api_password.is_none()) {
            return Err(ConfigError::MissingAuth);
        }
        let api_base_url = match Self::env_opt(env, "TAPD_API_BASE_URL") {
            Some(v) => v,
            None => String::from_str("https://api.tapd.cn"),
        };
        Ok(
            Config {
                api_base_url,
                web_base_url: Self::env_opt(env, "TAPD_BASE_URL"),
                access_token,
                api_user,
                api_password,
                bot_url: Self::env_opt(env, "BOT_URL"),
                nick: Self::env_opt(env, "CURRENT_USER_NICK"),
            },
        )
    }

    /// The configuration addresses the TAPD cloud service: its API address
    /// contains `api.tapd.cn`.
    pub fn is_cloud(&self) -> (r: bool)
        ensures
            r == contains_str(self.api_base_url@, "api.tapd.cn"@),
    {
        str_contains(self.api_base_url.as_str(), "api.tapd.cn")
    }
}

} // verus!
