use starrail_codes::config::{
    default_host, default_mongo_database, default_mongo_uri, default_port, HoyolabConfig,
    MongoConfig, ServerConfig, Settings, SettingsError,
};

fn hoyolab(region: &str, uid: &str, cookie: &str) -> HoyolabConfig {
    HoyolabConfig {
        region: region.to_string(),
        uid: uid.to_string(),
        cookie: cookie.to_string(),
        user_agent: "agent".to_string(),
    }
}

#[test]
fn test_defaults() {
    assert_eq!(default_host(), "0.0.0.0");
    assert_eq!(default_port(), 7878);
    assert_eq!(default_mongo_uri(), "mongodb://localhost:27017");
    assert_eq!(default_mongo_database(), "starrail-api");
    let server = ServerConfig::default();
    assert_eq!(server.host, "0.0.0.0");
    assert_eq!(server.port, 7878);
    let mongo = MongoConfig::default();
    assert_eq!(mongo.uri, "mongodb://localhost:27017");
    assert_eq!(mongo.database, "starrail-api");
}

#[test]
fn test_missing_region_is_rejected() {
    let r = Settings::build(
        ServerConfig::default(),
        MongoConfig::default(),
        hoyolab("", "uid", "cookie"),
    );
    assert_eq!(r.err(), Some(SettingsError::MissingRegion));
}

#[test]
fn test_missing_uid_is_rejected() {
    let r = Settings::build(
        ServerConfig::default(),
        MongoConfig::default(),
        hoyolab("prod", "", "cookie"),
    );
    assert_eq!(r.err(), Some(SettingsError::MissingUid));
}

#[test]
fn test_missing_cookie_is_rejected() {
    let r = Settings::build(
        ServerConfig::default(),
        MongoConfig::default(),
        hoyolab("prod", "uid", ""),
    );
    assert_eq!(r.err(), Some(SettingsError::MissingCookie));
}

#[test]
fn test_complete_settings_are_accepted() {
    let r = Settings::build(
        ServerConfig::default(),
        MongoConfig::default(),
        hoyolab("prod_official_asia", "700000000", "cookie"),
    );
    let settings = r.ok().expect("complete settings must be accepted");
    assert_eq!(settings.hoyolab.region, "prod_official_asia");
    assert_eq!(settings.hoyolab.uid, "700000000");
    assert_eq!(settings.server.port, 7878);
}
