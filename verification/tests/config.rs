use policy_monitor::config::Config;
use policy_monitor::config::ConfigError;
use policy_monitor::config::Environment;
use policy_monitor::config::parse_number;

fn empty() -> Environment {
    Environment {
        collector_port: None,
        database_url: None,
        database_max_connections: None,
        redis_url: None,
        max_concurrent_collections: None,
        default_check_frequency: None,
        user_agent: None,
        twitter_api_key: None,
        twitter_api_secret: None,
        twitter_bearer_token: None,
        meta_access_token: None,
        meta_app_id: None,
        meta_app_secret: None,
        linkedin_api_key: None,
        linkedin_api_secret: None,
        youtube_api_key: None,
        bluesky_handle: None,
        bluesky_app_password: None,
    }
}

fn minimal() -> Environment {
    let mut env = empty();
    env.database_url = Some("postgres://db".to_string());
    env.redis_url = Some("redis://cache".to_string());
    env
}

fn text(s: &str) -> Option<String> {
    Some(s.to_string())
}

#[test]
fn defaults_apply_where_nothing_is_set() {
    let config = Config::from_env(&minimal()).unwrap();
    assert_eq!(config.server.port, 3001);
    assert_eq!(config.database.url, "postgres://db");
    assert_eq!(config.database.max_connections, 20);
    assert_eq!(config.redis.url, "redis://cache");
    assert_eq!(config.collector.max_concurrent_collections, 10);
    assert_eq!(config.collector.default_check_frequency, 60);
    assert_eq!(
        config.collector.user_agent,
        "NUJ Social Media Monitor/1.0 (https://nuj.org.uk; monitor@nuj.org.uk)"
    );
    assert!(config.platforms.twitter.is_none());
    assert!(config.platforms.meta.is_none());
    assert!(config.platforms.linkedin.is_none());
    assert!(config.platforms.youtube.is_none());
    assert!(config.platforms.bluesky.is_none());
}

#[test]
fn set_values_are_taken() {
    let mut env = minimal();
    env.collector_port = text("8080");
    env.database_max_connections = text("+5");
    env.max_concurrent_collections = text("0");
    env.default_check_frequency = text("18446744073709551615");
    env.user_agent = text("monitor/2");
    let config = Config::from_env(&env).unwrap();
    assert_eq!(config.server.port, 8080);
    assert_eq!(config.database.max_connections, 5);
    assert_eq!(config.collector.max_concurrent_collections, 0);
    assert_eq!(config.collector.default_check_frequency, u64::MAX);
    assert_eq!(config.collector.user_agent, "monitor/2");
}

#[test]
fn each_error_is_reported() {
    let mut env = minimal();
    env.collector_port = text("65536");
    assert_eq!(Config::from_env(&env).unwrap_err(), ConfigError::InvalidPort);
    env.collector_port = text("http");
    assert_eq!(Config::from_env(&env).unwrap_err(), ConfigError::InvalidPort);

    let mut env = minimal();
    env.database_url = None;
    assert_eq!(Config::from_env(&env).unwrap_err(), ConfigError::MissingDatabaseUrl);

    let mut env = minimal();
    env.database_max_connections = text("4294967296");
    assert_eq!(Config::from_env(&env).unwrap_err(), ConfigError::InvalidMaxConnections);

    let mut env = minimal();
    env.redis_url = None;
    assert_eq!(Config::from_env(&env).unwrap_err(), ConfigError::MissingRedisUrl);

    let mut env = minimal();
    env.max_concurrent_collections = text("-1");
    assert_eq!(Config::from_env(&env).unwrap_err(), ConfigError::InvalidMaxConcurrentCollections);

    let mut env = minimal();
    env.default_check_frequency = text("18446744073709551616");
    assert_eq!(Config::from_env(&env).unwrap_err(), ConfigError::InvalidCheckFrequency);
    env.default_check_frequency = text("");
    assert_eq!(Config::from_env(&env).unwrap_err(), ConfigError::InvalidCheckFrequency);
}

#[test]
fn first_error_wins() {
    let mut env = empty();
    env.collector_port = text("x");
    env.database_max_connections = text("x");
    assert_eq!(Config::from_env(&env).unwrap_err(), ConfigError::InvalidPort);
    env.collector_port = None;
    assert_eq!(Config::from_env(&env).unwrap_err(), ConfigError::MissingDatabaseUrl);
    env.database_url = text("postgres://db");
    assert_eq!(Config::from_env(&env).unwrap_err(), ConfigError::InvalidMaxConnections);
    env.database_max_connections = None;
    env.default_check_frequency = text("x");
    assert_eq!(Config::from_env(&env).unwrap_err(), ConfigError::MissingRedisUrl);
}

#[test]
fn credentials_need_all_their_parts() {
    let mut env = minimal();
    env.twitter_api_key = text("key");
    env.linkedin_api_secret = text("secret");
    env.bluesky_handle = text("handle");
    env.meta_app_id = text("app");
    let config = Config::from_env(&env).unwrap();
    assert!(config.platforms.twitter.is_none());
    assert!(config.platforms.linkedin.is_none());
    assert!(config.platforms.bluesky.is_none());
    assert!(config.platforms.meta.is_none());
    assert!(config.platforms.youtube.is_none());

    env.twitter_api_secret = text("secret");
    env.linkedin_api_key = text("key");
    env.bluesky_app_password = text("password");
    env.meta_access_token = text("token");
    env.youtube_api_key = text("tube");
    let config = Config::from_env(&env).unwrap();
    let twitter = config.platforms.twitter.unwrap();
    assert_eq!(twitter.api_key, "key");
    assert_eq!(twitter.api_secret, "secret");
    assert_eq!(twitter.bearer_token, None);
    let linkedin = config.platforms.linkedin.unwrap();
    assert_eq!(linkedin.api_key, "key");
    assert_eq!(linkedin.api_secret, "secret");
    let bluesky = config.platforms.bluesky.unwrap();
    assert_eq!(bluesky.handle, "handle");
    assert_eq!(bluesky.app_password, "password");
    let meta = config.platforms.meta.unwrap();
    assert_eq!(meta.access_token, "token");
    assert_eq!(meta.app_id, Some("app".to_string()));
    assert_eq!(meta.app_secret, None);
    assert_eq!(config.platforms.youtube.unwrap().api_key, "tube");

    env.twitter_bearer_token = text("bearer");
    let twitter = Config::get_twitter_creds(&env).unwrap();
    assert_eq!(twitter.bearer_token, Some("bearer".to_string()));
}

#[test]
fn numbers_are_read_as_the_standard_library_reads_them() {
    let samples = [
        "", "+", "-", "0", "00", "007", "+0", "+12", "-12", "12", " 12", "12 ", "1_2", "1.2",
        "0x10", "++1", "+-1", "255", "256", "65535", "65536", "9", "٣", "1e3",
        "18446744073709551615", "18446744073709551616", "99999999999999999999999",
        "000000000000000000000000001",
    ];
    for s in samples {
        assert_eq!(parse_number(s, 255), s.parse::<u8>().ok().map(u64::from), "{:?}", s);
        assert_eq!(parse_number(s, 65535), s.parse::<u16>().ok().map(u64::from), "{:?}", s);
        assert_eq!(parse_number(s, u64::MAX), s.parse::<u64>().ok(), "{:?}", s);
    }
    assert_eq!(parse_number("5", 4), None);
    assert_eq!(parse_number("4", 4), Some(4));
    assert_eq!(parse_number("0", 0), Some(0));
    assert_eq!(parse_number("1", 0), None);
}
