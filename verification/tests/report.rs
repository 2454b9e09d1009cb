use vita::outcome::{SourceError, SourceCause, SourceKind, SourceOutcome};
use vita::report::{run_report, timeout_outcome};

#[test]
fn scenario_two_successes_one_empty_failure() {
    let outcomes = vec![
        SourceOutcome::Found(
            SourceKind::AnubisDb,
            vec!["a.example.com".to_string(), "B.Example.com".to_string()],
        ),
        SourceOutcome::Failed(SourceError::new(
            SourceKind::CrtSh,
            SourceCause::EmptyResult,
            "example.com".to_string(),
        )),
        SourceOutcome::Found(SourceKind::Wayback, vec!["a.example.com".to_string()]),
    ];
    let report = run_report("example.com", &outcomes);
    let mut subs = report.subdomains.clone();
    subs.sort();
    assert_eq!(subs, vec!["a.example.com".to_string(), "b.example.com".to_string()]);
    assert_eq!(report.errors.len(), 1);
    assert_eq!(report.errors[0].kind, SourceKind::CrtSh);
    assert_eq!(report.errors[0].cause, SourceCause::EmptyResult);
}

#[test]
fn all_sources_failed_yields_empty_set_and_one_error_each() {
    let outcomes = vec![
        SourceOutcome::Failed(SourceError::new(
            SourceKind::AnubisDb,
            SourceCause::TransportFailure,
            "example.com".to_string(),
        )),
        SourceOutcome::Failed(SourceError::new(
            SourceKind::CrtSh,
            SourceCause::DecodeFailure,
            "example.com".to_string(),
        )),
        SourceOutcome::Failed(SourceError::new(
            SourceKind::Wayback,
            SourceCause::EmptyResult,
            "example.com".to_string(),
        )),
    ];
    let report = run_report("example.com", &outcomes);
    assert!(report.subdomains.is_empty());
    assert_eq!(report.errors.len(), 3);
    assert_eq!(report.errors[0].kind, SourceKind::AnubisDb);
    assert_eq!(report.errors[1].kind, SourceKind::CrtSh);
    assert_eq!(report.errors[2].kind, SourceKind::Wayback);
}

#[test]
fn empty_found_outcome_surfaces_as_empty_result_error() {
    let outcomes = vec![SourceOutcome::Found(SourceKind::CrtSh, vec![])];
    let report = run_report("example.com", &outcomes);
    assert!(report.subdomains.is_empty());
    assert_eq!(report.errors.len(), 1);
    assert_eq!(report.errors[0].kind, SourceKind::CrtSh);
    assert_eq!(report.errors[0].cause, SourceCause::EmptyResult);
    assert_eq!(report.errors[0].host, "example.com");
}

#[test]
fn empty_registry_yields_empty_report_without_errors() {
    let outcomes: Vec<SourceOutcome> = vec![];
    let report = run_report("example.com", &outcomes);
    assert!(report.subdomains.is_empty());
    assert!(report.errors.is_empty());
}

#[test]
fn timed_out_source_is_one_transport_failure() {
    let o = timeout_outcome(SourceKind::Wayback, "example.com".to_string());
    match &o {
        SourceOutcome::Failed(e) => {
            assert_eq!(e.kind, SourceKind::Wayback);
            assert_eq!(e.cause, SourceCause::TransportFailure);
            assert_eq!(e.host, "example.com");
        }
        SourceOutcome::Found(..) => panic!("a timeout must be a failure"),
    }
    let report = run_report("example.com", &vec![o]);
    assert!(report.subdomains.is_empty());
    assert_eq!(report.errors.len(), 1);
    assert_eq!(report.errors[0].cause, SourceCause::TransportFailure);
}

#[test]
fn duplicate_error_preserves_fields() {
    let e = SourceError::new(
        SourceKind::AnubisDb,
        SourceCause::DecodeFailure,
        "example.com".to_string(),
    );
    let d = e.duplicate();
    assert_eq!(d.kind, e.kind);
    assert_eq!(d.cause, e.cause);
    assert_eq!(d.host, e.host);
}
