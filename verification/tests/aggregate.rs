use vita::aggregate::merge;
use vita::hostname::normalize_candidate;
use vita::outcome::{SourceError, SourceCause, SourceKind, SourceOutcome};

fn found(kind: SourceKind, names: &[&str]) -> SourceOutcome {
    SourceOutcome::Found(kind, names.iter().map(|n| n.to_string()).collect())
}

#[test]
fn normalize_lowercases() {
    let r = normalize_candidate("B.Example.com", "example.com");
    assert_eq!(r, Some("b.example.com".to_string()));
}

#[test]
fn normalize_strips_scheme_and_path() {
    let r = normalize_candidate("HTTPS://A.Example.COM/some/path?q=1", "example.com");
    assert_eq!(r, Some("a.example.com".to_string()));
}

#[test]
fn normalize_keeps_target_host_itself() {
    let r = normalize_candidate("example.com", "example.com");
    assert_eq!(r, Some("example.com".to_string()));
}

#[test]
fn normalize_rejects_foreign_hosts() {
    assert_eq!(normalize_candidate("a.example.org", "example.com"), None);
    assert_eq!(normalize_candidate("badexample.com", "example.com"), None);
    assert_eq!(normalize_candidate("", "example.com"), None);
}

#[test]
fn normalize_rejects_implausible_hostnames() {
    assert_eq!(normalize_candidate("a..example.com", "example.com"), None);
    assert_eq!(normalize_candidate("-a.example.com", "example.com"), None);
    assert_eq!(normalize_candidate("a_b.example.com", "example.com"), None);
    assert_eq!(normalize_candidate("a.example.com:8080", "example.com"), None);
}

#[test]
fn merge_unions_normalizes_and_deduplicates() {
    let outcomes = vec![
        found(SourceKind::AnubisDb, &["a.example.com", "B.Example.com"]),
        SourceOutcome::Failed(SourceError::new(
            SourceKind::CrtSh,
            SourceCause::EmptyResult,
            "example.com".to_string(),
        )),
        found(SourceKind::Wayback, &["a.example.com"]),
    ];
    let mut r = merge(&outcomes, "example.com");
    r.sort();
    assert_eq!(r, vec!["a.example.com".to_string(), "b.example.com".to_string()]);
}

#[test]
fn merge_drops_invalid_candidates() {
    let outcomes = vec![found(
        SourceKind::AnubisDb,
        &["ok.example.com", "not a host", "other.example.org", "http://"],
    )];
    let r = merge(&outcomes, "example.com");
    assert_eq!(r, vec!["ok.example.com".to_string()]);
}

#[test]
fn merge_never_keeps_a_leaked_path_verbatim() {
    let outcomes = vec![found(SourceKind::Wayback, &["a.example.com/path"])];
    let r = merge(&outcomes, "example.com");
    assert!(!r.contains(&"a.example.com/path".to_string()));
    assert_eq!(r, vec!["a.example.com".to_string()]);
}

#[test]
fn merge_is_order_independent() {
    let a = found(SourceKind::AnubisDb, &["a.example.com", "b.example.com"]);
    let b = SourceOutcome::Failed(SourceError::new(
        SourceKind::CrtSh,
        SourceCause::TransportFailure,
        "example.com".to_string(),
    ));
    let c = found(SourceKind::Wayback, &["c.example.com", "a.example.com"]);
    let d = found(SourceKind::Wayback, &["B.Example.com/x"]);

    let one = vec![
        found(SourceKind::AnubisDb, &["a.example.com", "b.example.com"]),
        SourceOutcome::Failed(SourceError::new(
            SourceKind::CrtSh,
            SourceCause::TransportFailure,
            "example.com".to_string(),
        )),
        found(SourceKind::Wayback, &["c.example.com", "a.example.com"]),
        found(SourceKind::Wayback, &["B.Example.com/x"]),
    ];
    let other = vec![d, c, b, a];

    let mut r1 = merge(&one, "example.com");
    let mut r2 = merge(&other, "example.com");
    r1.sort();
    r2.sort();
    assert_eq!(r1, r2);
}

#[test]
fn merge_twice_is_identical() {
    let outcomes = vec![
        found(SourceKind::AnubisDb, &["x.example.com", "Y.example.com"]),
        found(SourceKind::CrtSh, &["y.example.com"]),
    ];
    let mut r1 = merge(&outcomes, "example.com");
    let mut r2 = merge(&outcomes, "example.com");
    r1.sort();
    r2.sort();
    assert_eq!(r1, r2);
}

#[test]
fn normalize_enforces_length_bound() {
    let suffix = ".example.com";
    let longest = format!("{}{}", "a".repeat(253 - suffix.len()), suffix);
    assert_eq!(longest.len(), 253);
    assert_eq!(
        normalize_candidate(&longest, "example.com"),
        Some(longest.clone())
    );
    let too_long = format!("{}{}", "a".repeat(254 - suffix.len()), suffix);
    assert_eq!(normalize_candidate(&too_long, "example.com"), None);
}
