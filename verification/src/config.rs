//! The configuration of the service, made from the values of its
//! environment variables.

use crate::models::opt_text;
use crate::text::chars_of;
use vstd::prelude::*;

verus! {

/// The configuration of the service.
#[derive(Clone, Debug)]
pub struct Config {
    pub server: ServerConfig,
    pub database: DatabaseConfig,
    pub redis: RedisConfig,
    pub collector: CollectorConfig,
    pub platforms: PlatformCredentials,
}

/// Where the server listens.
#[derive(Clone, Debug)]
pub struct ServerConfig {
    pub port: u16,
}

/// How the database is reached.
#[derive(Clone, Debug)]
pub struct DatabaseConfig {
    pub url: String,
    pub max_connections: u32,
}

/// How Redis is reached.
#[derive(Clone, Debug)]
pub struct RedisConfig {
    pub url: String,
}

/// How the collector behaves: how many platforms it collects at a time,
/// how often a platform is checked unless it says otherwise, and the name
/// under which the collector presents itself.
#[derive(Clone, Debug)]
pub struct CollectorConfig {
    pub max_concurrent_collections: usize,
    pub default_check_frequency: u64,
    pub user_agent: String,
}

/// The credentials for the structured APIs, for each platform that has
/// them.
#[derive(Clone, Debug)]
pub struct PlatformCredentials {
    pub twitter: Option<TwitterCredentials>,
    pub meta: Option<MetaCredentials>,
    pub linkedin: Option<LinkedInCredentials>,
    pub youtube: Option<YouTubeCredentials>,
    pub bluesky: Option<BlueskyCredentials>,
}

/// Credentials for the Twitter API.
#[derive(Clone, Debug)]
pub struct TwitterCredentials {
    pub api_key: String,
    pub api_secret: String,
    pub bearer_token: Option<String>,
}

/// Credentials for the Meta Graph API.
#[derive(Clone, Debug)]
pub struct MetaCredentials {
    pub access_token: String,
    pub app_id: Option<String>,
    pub app_secret: Option<String>,
}

/// Credentials for the LinkedIn API.
#[derive(Clone, Debug)]
pub struct LinkedInCredentials {
    pub api_key: String,
    pub api_secret: String,
}

/// Credentials for the YouTube API.
#[derive(Clone, Debug)]
pub struct YouTubeCredentials {
    pub api_key: String,
}

/// Credentials for Bluesky.
#[derive(Clone, Debug)]
pub struct BlueskyCredentials {
    pub handle: String,
    pub app_password: String,
}

/// The values of the environment variables that the configuration is made
/// from. A field is `None` where its variable is not set.
#[derive(Clone, Debug)]
pub struct Environment {
    /// `COLLECTOR_PORT`
    pub collector_port: Option<String>,
    /// `DATABASE_URL`
    pub database_url: Option<String>,
    /// `DATABASE_MAX_CONNECTIONS`
    pub database_max_connections: Option<String>,
    /// `REDIS_URL`
    pub redis_url: Option<String>,
    /// `MAX_CONCURRENT_COLLECTIONS`
    pub max_concurrent_collections: Option<String>,
    /// `DEFAULT_CHECK_FREQUENCY`
    pub default_check_frequency: Option<String>,
    /// `USER_AGENT`
    pub user_agent: Option<String>,
    /// `TWITTER_API_KEY`
    pub twitter_api_key: Option<String>,
    /// `TWITTER_API_SECRET`
    pub twitter_api_secret: Option<String>,
    /// `TWITTER_BEARER_TOKEN`
    pub twitter_bearer_token: Option<String>,
    /// `META_ACCESS_TOKEN`
    pub meta_access_token: Option<String>,
    /// `META_APP_ID`
    pub meta_app_id: Option<String>,
    /// `META_APP_SECRET`
    pub meta_app_secret: Option<String>,
    /// `LINKEDIN_API_KEY`
    pub linkedin_api_key: Option<String>,
    /// `LINKEDIN_API_SECRET`
    pub linkedin_api_secret: Option<String>,
    /// `YOUTUBE_API_KEY`
    pub youtube_api_key: Option<String>,
    /// `BLUESKY_HANDLE`
    pub bluesky_handle: Option<String>,
    /// `BLUESKY_APP_PASSWORD`
    pub bluesky_app_password: Option<String>,
}

/// Why no configuration could be made. Where several reasons hold, the first
/// of them in this order is given.
#[derive(Clone, Copy, Debug, PartialEq, Eq, Structural)]
pub enum ConfigError {
    /// `COLLECTOR_PORT` is no number that fits a port.
    InvalidPort,
    /// `DATABASE_URL` is not set.
    MissingDatabaseUrl,
    /// `DATABASE_MAX_CONNECTIONS` is no number of 32 bits.
    InvalidMaxConnections,
    /// `REDIS_URL` is not set.
    MissingRedisUrl,
    /// `MAX_CONCURRENT_COLLECTIONS` is no number that fits the machine's
    /// word.
    InvalidMaxConcurrentCollections,
    /// `DEFAULT_CHECK_FREQUENCY` is no number of 64 bits.
    InvalidCheckFrequency,
}

/// The value of a decimal digit.
pub open spec fn digit_value(c: char) -> Option<nat> {
    if '0' <= c <= '9' {
        Some((c as u32 - 0x30) as nat)
    } else {
        None
    }
}

/// The number that a run of decimal digits denotes. The empty text and a text
/// with any other character denote none.
pub open spec fn digits_value(s: Seq<char>) -> Option<nat>
    decreases s.len(),
{
    if s.len() == 0 {
        None
    } else if s.len() == 1 {
        digit_value(s[0])
    } else {
        match (digits_value(s.drop_last()), digit_value(s.last())) {
            (Some(front), Some(digit)) => Some(10 * front + digit),
            _ => None,
        }
    }
}

/// The number that `s` denotes, if it is one of at most `max`: a run of
/// decimal digits, which a `+` may precede. White space, a minus sign or an
/// underscore make the text denote nothing.
pub open spec fn number_in(s: Seq<char>, max: nat) -> Option<nat> {
    let digits = if s.len() > 0 && s[0] == '+' {
        s.drop_first()
    } else {
        s
    };
    match digits_value(digits) {
        Some(v) => if v <= max {
            Some(v)
        } else {
            None
        },
        None => None,
    }
}

/// Reads `text` as a decimal number of at most `max`.
pub fn parse_number(text: &str, max: u64) -> (number: Option<u64>)
    ensures
        number is Some == number_in(text@, max as nat) is Some,
        number matches Some(v) ==> number_in(text@, max as nat) == Some(v as nat),
{
    let chars = chars_of(text);
    let n = chars.len();
    let start: usize = if n > 0 && chars[0] == '+' {
        1
    } else {
        0
    };
    let ghost digits = chars@.skip(start as int);
    proof {
        if start == 1 {
            assert(digits =~= chars@.drop_first());
        } else {
            assert(digits =~= chars@);
        }
    }
    if start == n {
        return None;
    }
    let mut value: u64 = 0;
    let mut i: usize = start;
    while i < n
        invariant
            n == chars@.len(),
            start <= i <= n,
            start < n,
            digits == chars@.skip(start as int),
            digits == if text@.len() > 0 && text@[0] == '+' {
                text@.drop_first()
            } else {
                text@
            },
            value <= max,
            i > start ==> digits_value(digits.take(i - start)) == Some(value as nat),
            i == start ==> value == 0,
        decreases n - i,
    {
        let c = chars[i];
        let ghost prefix = digits.take(i - start + 1);
        proof {
            assert(prefix.drop_last() =~= digits.take(i - start));
            assert(prefix.last() == c);
            assert(digits.take(n - start) =~= digits);
        }
        if c < '0' || c > '9' {
            proof {
                assert(digit_value(c) is None);
                assert(digits_value(prefix) is None);
                none_stays_none(digits, i - start + 1);
            }
            return None;
        }
        let digit: u64 = (c as u32 - 0x30) as u64;
        if digit > max {
            proof {
                too_large_stays_too_large(digits, i - start + 1, max as nat);
            }
            return None;
        }
        if value > (max - digit) / 10 {
            proof {
                assert(10 * value + digit > max) by (nonlinear_arith)
                    requires
                        value > (max - digit) / 10,
                        digit <= max,
                        0 <= digit <= 9,
                ;
                too_large_stays_too_large(digits, i - start + 1, max as nat);
            }
            return None;
        }
        proof {
            assert(10 * value + digit <= max) by (nonlinear_arith)
                requires
                    value <= (max - digit) / 10,
                    digit <= max,
            ;
        }
        value = 10 * value + digit;
        i += 1;
    }
    proof {
        assert(digits.take(n - start) =~= digits);
    }
    Some(value)
}

/// Where a beginning of a text denotes no number, the text denotes none.
proof fn none_stays_none(s: Seq<char>, k: int)
    requires
        0 < k <= s.len(),
        digits_value(s.take(k)) is None,
    ensures
        digits_value(s) is None,
    decreases s.len() - k,
{
    if k < s.len() {
        assert(s.take(k + 1).drop_last() =~= s.take(k));
        none_stays_none(s, k + 1);
    } else {
        assert(s.take(k) =~= s);
    }
}

/// Where a beginning of a text denotes a number above `max`, the text
/// denotes none of at most `max`.
proof fn too_large_stays_too_large(s: Seq<char>, k: int, max: nat)
    requires
        0 < k <= s.len(),
        digits_value(s.take(k)) matches Some(v) ==> v > max,
    ensures
        digits_value(s) matches Some(v) ==> v > max,
    decreases s.len() - k,
{
    if k < s.len() {
        assert(s.take(k + 1).drop_last() =~= s.take(k));
        too_large_stays_too_large(s, k + 1, max);
    } else {
        assert(s.take(k) =~= s);
    }
}

/// The text of a variable, or `default` where it is not set.
pub open spec fn text_or(value: Option<String>, default: Seq<char>) -> Seq<char> {
    match value {
        Some(v) => v@,
        None => default,
    }
}

/// Reads a variable as a number of at most `max`; where it is not set, reads
/// `default` in its place.
fn number_or(value: &Option<String>, default: &str, max: u64) -> (number: Option<u64>)
    ensures
        number is Some == number_in(text_or(*value, default@), max as nat) is Some,
        number matches Some(v) ==> number_in(text_or(*value, default@), max as nat) == Some(
            v as nat,
        ),
{
    match value {
        Some(v) => parse_number(v.as_str(), max),
        None => parse_number(default, max),
    }
}

impl Environment {
    /// The port that the server listens on: 3001 unless set.
    pub open spec fn port(&self) -> Option<nat> {
        number_in(text_or(self.collector_port, "3001"@), u16::MAX as nat)
    }

    /// The size of the database's connection pool: 20 unless set.
    pub open spec fn max_connections(&self) -> Option<nat> {
        number_in(text_or(self.database_max_connections, "20"@), u32::MAX as nat)
    }

    /// How many platforms are collected at a time: 10 unless set.
    pub open spec fn max_concurrent(&self) -> Option<nat> {
        number_in(text_or(self.max_concurrent_collections, "10"@), usize::MAX as nat)
    }

    /// The minutes between two checks of a platform: 60 unless set.
    pub open spec fn check_frequency(&self) -> Option<nat> {
        number_in(text_or(self.default_check_frequency, "60"@), u64::MAX as nat)
    }

    /// The name under which the collector presents itself to the servers it
    /// fetches from.
    pub open spec fn agent(&self) -> Seq<char> {
        text_or(
            self.user_agent,
            "NUJ Social Media Monitor/1.0 (https://nuj.org.uk; monitor@nuj.org.uk)"@,
        )
    }

    /// Why no configuration can be made of these values, if none can.
    pub open spec fn error(&self) -> Option<ConfigError> {
        if self.port() is None {
            Some(ConfigError::InvalidPort)
        } else if self.database_url is None {
            Some(ConfigError::MissingDatabaseUrl)
        } else if self.max_connections() is None {
            Some(ConfigError::InvalidMaxConnections)
        } else if self.redis_url is None {
            Some(ConfigError::MissingRedisUrl)
        } else if self.max_concurrent() is None {
            Some(ConfigError::InvalidMaxConcurrentCollections)
        } else if self.check_frequency() is None {
            Some(ConfigError::InvalidCheckFrequency)
        } else {
            None
        }
    }
}

impl PlatformCredentials {
    /// Whether these are the credentials that `env` holds: those of a
    /// platform are there exactly when all that the platform cannot do
    /// without is set.
    pub open spec fn drawn_from(&self, env: &Environment) -> bool {
        &&& self.twitter is Some <==> env.twitter_api_key is Some && env.twitter_api_secret is Some
        &&& self.twitter matches Some(c) ==> {
            &&& Some(c.api_key@) == opt_text(env.twitter_api_key)
            &&& Some(c.api_secret@) == opt_text(env.twitter_api_secret)
            &&& opt_text(c.bearer_token) == opt_text(env.twitter_bearer_token)
        }
        &&& self.meta is Some <==> env.meta_access_token is Some
        &&& self.meta matches Some(c) ==> {
            &&& Some(c.access_token@) == opt_text(env.meta_access_token)
            &&& opt_text(c.app_id) == opt_text(env.meta_app_id)
            &&& opt_text(c.app_secret) == opt_text(env.meta_app_secret)
        }
        &&& self.linkedin is Some <==> env.linkedin_api_key is Some && env.linkedin_api_secret
            is Some
        &&& self.linkedin matches Some(c) ==> {
            &&& Some(c.api_key@) == opt_text(env.linkedin_api_key)
            &&& Some(c.api_secret@) == opt_text(env.linkedin_api_secret)
        }
        &&& self.youtube is Some <==> env.youtube_api_key is Some
        &&& self.youtube matches Some(c) ==> Some(c.api_key@) == opt_text(env.youtube_api_key)
        &&& self.bluesky is Some <==> env.bluesky_handle is Some && env.bluesky_app_password
            is Some
        &&& self.bluesky matches Some(c) ==> {
            &&& Some(c.handle@) == opt_text(env.bluesky_handle)
            &&& Some(c.app_password@) == opt_text(env.bluesky_app_password)
        }
    }
}

impl Config {
    /// Whether this is the configuration that `env` gives.
    pub open spec fn drawn_from(&self, env: &Environment) -> bool {
        &&& Some(self.server.port as nat) == env.port()
        &&& Some(self.database.url@) == opt_text(env.database_url)
        &&& Some(self.database.max_connections as nat) == env.max_connections()
        &&& Some(self.redis.url@) == opt_text(env.redis_url)
        &&& Some(self.collector.max_concurrent_collections as nat) == env.max_concurrent()
        &&& Some(self.collector.default_check_frequency as nat) == env.check_frequency()
        &&& self.collector.user_agent@ == env.agent()
        &&& self.platforms.drawn_from(env)
    }

    /// Makes the configuration from the values of the environment variables.
    pub fn from_env(env: &Environment) -> (result: Result<Config, ConfigError>)
        ensures
            match env.error() {
                Some(e) => result == Err::<Config, ConfigError>(e),
                None => result matches Ok(config) && config.drawn_from(env),
            },
    {
        let port = match number_or(&env.collector_port, "3001", 65535) {
            Some(v) => v as u16,
            None => {
                return Err(ConfigError::InvalidPort);
            },
        };
        let database_url = match &env.database_url {
            Some(url) => url.clone(),
            None => {
                return Err(ConfigError::MissingDatabaseUrl);
            },
        };
        let max_connections = match number_or(&env.database_max_connections, "20", 4294967295) {
            Some(v) => v as u32,
            None => {
                return Err(ConfigError::InvalidMaxConnections);
            },
        };
        let redis_url = match &env.redis_url {
            Some(url) => url.clone(),
            None => {
                return Err(ConfigError::MissingRedisUrl);
            },
        };
        let max_concurrent_collections = match number_or(
            &env.max_concurrent_collections,
            "10",
            usize::MAX as u64,
        ) {
            Some(v) => v as usize,
            None => {
                return Err(ConfigError::InvalidMaxConcurrentCollections);
            },
        };
        let default_check_frequency = match number_or(
            &env.default_check_frequency,
            "60",
            u64::MAX,
        ) {
            Some(v) => v,
            None => {
                return Err(ConfigError::InvalidCheckFrequency);
            },
        };
        let user_agent = match &env.user_agent {
            Some(agent) => agent.clone(),
            None => {
                "NUJ Social Media Monitor/1.0 (https://nuj.org.uk; monitor@nuj.org.uk)".to_owned()
            },
        };
        Ok(
            Config {
                server: ServerConfig { port },
                database: DatabaseConfig { url: database_url, max_connections },
                redis: RedisConfig { url: redis_url },
                collector: CollectorConfig {
                    max_concurrent_collections,
                    default_check_frequency,
                    user_agent,
                },
                platforms: PlatformCredentials {
                    twitter: Config::get_twitter_creds(env),
                    meta: Config::get_meta_creds(env),
                    linkedin: Config::get_linkedin_creds(env),
                    youtube: Config::get_youtube_creds(env),
                    bluesky: Config::get_bluesky_creds(env),
                },
            },
        )
    }

    /// The credentials for Twitter: there when key and secret are set.
    pub fn get_twitter_creds(env: &Environment) -> (creds: Option<TwitterCredentials>)
        ensures
            creds is Some <==> env.twitter_api_key is Some && env.twitter_api_secret is Some,
            creds matches Some(c) ==> {
                &&& Some(c.api_key@) == opt_text(env.twitter_api_key)
                &&& Some(c.api_secret@) == opt_text(env.twitter_api_secret)
                &&& opt_text(c.bearer_token) == opt_text(env.twitter_bearer_token)
            },
    {
        match (&env.twitter_api_key, &env.twitter_api_secret) {
            (Some(api_key), Some(api_secret)) => Some(
                TwitterCredentials {
                    api_key: api_key.clone(),
                    api_secret: api_secret.clone(),
                    bearer_token: env.twitter_bearer_token.clone(),
                },
            ),
            _ => None,
        }
    }

    /// The credentials for Meta: there when the access token is set.
    pub fn get_meta_creds(env: &Environment) -> (creds: Option<MetaCredentials>)
        ensures
            creds is Some <==> env.meta_access_token is Some,
            creds matches Some(c) ==> {
                &&& Some(c.access_token@) == opt_text(env.meta_access_token)
                &&& opt_text(c.app_id) == opt_text(env.meta_app_id)
                &&& opt_text(c.app_secret) == opt_text(env.meta_app_secret)
            },
    {
        match &env.meta_access_token {
            Some(access_token) => Some(
                MetaCredentials {
                    access_token: access_token.clone(),
                    app_id: env.meta_app_id.clone(),
                    app_secret: env.meta_app_secret.clone(),
                },
            ),
            None => None,
        }
    }

    /// The credentials for LinkedIn: there when key and secret are set.
    pub fn get_linkedin_creds(env: &Environment) -> (creds: Option<LinkedInCredentials>)
        ensures
            creds is Some <==> env.linkedin_api_key is Some && env.linkedin_api_secret is Some,
            creds matches Some(c) ==> {
                &&& Some(c.api_key@) == opt_text(env.linkedin_api_key)
                &&& Some(c.api_secret@) == opt_text(env.linkedin_api_secret)
            },
    {
        match (&env.linkedin_api_key, &env.linkedin_api_secret) {
            (Some(api_key), Some(api_secret)) => Some(
                LinkedInCredentials { api_key: api_key.clone(), api_secret: api_secret.clone() },
            ),
            _ => None,
        }
    }

    /// The credentials for YouTube: there when the key is set.
    pub fn get_youtube_creds(env: &Environment) -> (creds: Option<YouTubeCredentials>)
        ensures
            creds is Some <==> env.youtube_api_key is Some,
            creds matches Some(c) ==> Some(c.api_key@) == opt_text(env.youtube_api_key),
    {
        match &env.youtube_api_key {
            Some(api_key) => Some(YouTubeCredentials { api_key: api_key.clone() }),
            None => None,
        }
    }

    /// The credentials for Bluesky: there when handle and password are set.
    pub fn get_bluesky_creds(env: &Environment) -> (creds: Option<BlueskyCredentials>)
        ensures
            creds is Some <==> env.bluesky_handle is Some && env.bluesky_app_password is Some,
            creds matches Some(c) ==> {
                &&& Some(c.handle@) == opt_text(env.bluesky_handle)
                &&& Some(c.app_password@) == opt_text(env.bluesky_app_password)
            },
    {
        match (&env.bluesky_handle, &env.bluesky_app_password) {
            (Some(handle), Some(app_password)) => Some(
                BlueskyCredentials { handle: handle.clone(), app_password: app_password.clone() },
            ),
            _ => None,
        }
    }
}

} // verus!
