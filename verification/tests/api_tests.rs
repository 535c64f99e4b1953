use starrail_codes::api::{
    get_api_endpoints, requested_language, simple_code_response, split_by_active, NewsQueryParams,
};
use starrail_codes::logging::{get_level_color, LogLevel};
use starrail_codes::record::{default_as_true, RedemptionCode};

fn record(code: &str, active: bool) -> RedemptionCode {
    RedemptionCode {
        code: code.to_string(),
        rewards: vec!["Jade".to_string()],
        source: "S".to_string(),
        active,
        date: Some(5),
    }
}

#[test]
fn test_split_by_active() {
    let records = vec![record("A", true), record("B", false), record("C", true)];
    let (active, inactive) = split_by_active(records);
    let active_codes: Vec<&str> = active.iter().map(|r| r.code.as_str()).collect();
    let inactive_codes: Vec<&str> = inactive.iter().map(|r| r.code.as_str()).collect();
    assert_eq!(active_codes, vec!["A", "C"]);
    assert_eq!(inactive_codes, vec!["B"]);
}

#[test]
fn test_simple_code_response_keeps_code_and_rewards() {
    let (active, inactive) = split_by_active(vec![record("A", true), record("B", false)]);
    let resp = simple_code_response(active, inactive);
    assert_eq!(resp.active.len(), 1);
    assert_eq!(resp.active[0].code, "A");
    assert_eq!(resp.active[0].rewards, vec!["Jade".to_string()]);
    assert_eq!(resp.inactive.len(), 1);
    assert_eq!(resp.inactive[0].code, "B");
}

#[test]
fn test_api_endpoints() {
    let endpoints = get_api_endpoints().endpoints;
    assert_eq!(
        endpoints,
        vec![
            "/starrail".to_string(),
            "/starrail/code".to_string(),
            "/starrail/news/events".to_string(),
            "/starrail/news/notices".to_string(),
            "/starrail/news/info".to_string(),
        ]
    );
}

#[test]
fn test_requested_language() {
    let with_lang = NewsQueryParams { lang: Some("JP".to_string()) };
    assert_eq!(requested_language(&with_lang), Some("ja-jp"));
    let without = NewsQueryParams { lang: None };
    assert_eq!(requested_language(&without), None);
}

#[test]
fn test_scraped_candidates_default_to_active() {
    assert!(default_as_true());
}

#[test]
fn test_level_colors() {
    assert_eq!(get_level_color(LogLevel::Error), "\x1B[31m");
    assert_eq!(get_level_color(LogLevel::Warn), "\x1B[33m");
    assert_eq!(get_level_color(LogLevel::Info), "\x1B[32m");
    assert_eq!(get_level_color(LogLevel::Debug), "\x1B[36m");
    assert_eq!(get_level_color(LogLevel::Trace), "\x1B[35m");
}
