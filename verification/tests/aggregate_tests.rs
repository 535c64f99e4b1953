use starrail_codes::aggregate::{dedup_codes, merge_sources};
use starrail_codes::record::RedemptionCode;

fn record(code: &str, rewards: &[&str], source: &str) -> RedemptionCode {
    RedemptionCode {
        code: code.to_string(),
        rewards: rewards.iter().map(|r| r.to_string()).collect(),
        source: source.to_string(),
        active: true,
        date: None,
    }
}

#[test]
fn test_merge_keeps_registration_order() {
    let x = vec![record("K", &["60 Jade"], "X"), record("A", &["Credit"], "X")];
    let y = vec![record("B", &["Fuel"], "Y")];
    let z = vec![record("K", &["300 Jade"], "Z")];
    let all = merge_sources(vec![x, y, z]);
    let codes: Vec<&str> = all.iter().map(|r| r.code.as_str()).collect();
    assert_eq!(codes, vec!["K", "A", "B", "K"]);
}

#[test]
fn test_dedup_last_source_wins() {
    let x = vec![record("K", &["60 Jade"], "X"), record("A", &["Credit"], "X")];
    let y = vec![record("B", &["Fuel"], "Y")];
    let z = vec![record("K", &["300 Jade", "2 Fuel"], "Z")];
    let merged = dedup_codes(merge_sources(vec![x, y, z]));
    let codes: Vec<&str> = merged.iter().map(|r| r.code.as_str()).collect();
    assert_eq!(codes, vec!["K", "A", "B"]);
    let k = merged.iter().find(|r| r.code == "K").unwrap();
    assert_eq!(k.rewards, vec!["300 Jade".to_string(), "2 Fuel".to_string()]);
    assert_eq!(k.source, "Z");
}

#[test]
fn test_dedup_is_deterministic_for_fixed_sources() {
    let build = || {
        vec![
            vec![record("K", &["60 Jade"], "X")],
            vec![record("B", &["Fuel"], "Y")],
            vec![record("K", &["300 Jade"], "Z")],
        ]
    };
    let first = dedup_codes(merge_sources(build()));
    let second = dedup_codes(merge_sources(build()));
    assert_eq!(first.len(), second.len());
    for (a, b) in first.iter().zip(second.iter()) {
        assert_eq!(a.code, b.code);
        assert_eq!(a.rewards, b.rewards);
        assert_eq!(a.source, b.source);
    }
}

#[test]
fn test_dedup_of_empty_input_is_empty() {
    let merged = dedup_codes(Vec::new());
    assert!(merged.is_empty());
}
