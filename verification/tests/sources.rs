use vita::outcome::{SourceCause, SourceKind};
use vita::sources::{anubisdb, crtsh, wayback};

#[test]
fn anubisdb_url_builder() {
    let correct_uri = "https://jldc.me/anubis/subdomains/hackerone.com";
    assert_eq!(correct_uri, anubisdb::build_url("hackerone.com"));
}

#[test]
fn crtsh_url_builder() {
    let correct_uri = "https://crt.sh/?q=%.hackerone.com&output=json";
    assert_eq!(correct_uri, crtsh::build_url("hackerone.com"));
}

#[test]
fn wayback_url_builder() {
    let correct_uri =
        "https://web.archive.org/cdx/search/cdx?url=*.hackerone.com/*&output=json\
    &fl=original&collapse=urlkey&limit=100000";
    assert_eq!(correct_uri, wayback::build_url("hackerone.com"));
}

fn s(text: &str) -> serde_json::Value {
    serde_json::Value::String(text.to_string())
}

#[test]
fn anubisdb_process_reads_names() {
    let body = serde_json::Value::Array(vec![s("a.example.com"), s("b.example.com"), s("a.example.com")]);
    let mut names = anubisdb::process("example.com", Some(body)).unwrap();
    names.sort();
    assert_eq!(names, vec!["a.example.com".to_string(), "b.example.com".to_string()]);
}

#[test]
fn anubisdb_process_missing_body_is_empty_result() {
    let e = anubisdb::process("example.com", None).unwrap_err();
    assert_eq!(e.kind, SourceKind::AnubisDb);
    assert_eq!(e.cause, SourceCause::EmptyResult);
    assert_eq!(e.host, "example.com");
}

#[test]
fn anubisdb_process_wrong_shape_is_decode_failure() {
    let body = serde_json::Value::Bool(true);
    let e = anubisdb::process("example.com", Some(body)).unwrap_err();
    assert_eq!(e.cause, SourceCause::DecodeFailure);

    let body = serde_json::Value::Array(vec![s("a.example.com"), serde_json::Value::Null]);
    let e = anubisdb::process("example.com", Some(body)).unwrap_err();
    assert_eq!(e.cause, SourceCause::DecodeFailure);
}

#[test]
fn anubisdb_process_empty_array_is_empty_result() {
    let body = serde_json::Value::Array(vec![]);
    let e = anubisdb::process("example.com", Some(body)).unwrap_err();
    assert_eq!(e.cause, SourceCause::EmptyResult);
}

#[test]
fn anubisdb_error_message() {
    let e = anubisdb::AnubisError::new("anVubmxpa2VzdGVh.com".to_string());
    assert_eq!(
        e.message(),
        "AnubisDB couldn't find any results for: anVubmxpa2VzdGVh.com"
    );
}

#[test]
fn crtsh_process_reads_name_values() {
    let data = vec![
        crtsh::CrtshResult::new("a.example.com".to_string()),
        crtsh::CrtshResult::new("b.example.com".to_string()),
        crtsh::CrtshResult::new("a.example.com".to_string()),
    ];
    let mut names = crtsh::process("example.com", Some(data)).unwrap();
    names.sort();
    assert_eq!(names, vec!["a.example.com".to_string(), "b.example.com".to_string()]);
}

#[test]
fn crtsh_process_missing_body_is_empty_result() {
    let e = crtsh::process("example.com", None).unwrap_err();
    assert_eq!(e.kind, SourceKind::CrtSh);
    assert_eq!(e.cause, SourceCause::EmptyResult);
}

#[test]
fn crtsh_error_message() {
    let e = crtsh::CrtshError::new("anVubmxpa2VzdGVh.com".to_string());
    assert_eq!(
        e.message(),
        "Crtsh couldn't find any results for: anVubmxpa2VzdGVh.com"
    );
}

#[test]
fn wayback_process_extracts_url_hosts() {
    let rows = serde_json::Value::Array(vec![
        serde_json::Value::Array(vec![s("original")]),
        serde_json::Value::Array(vec![s("http://sub.example.com/some/page?x=1")]),
        serde_json::Value::Array(vec![s("https://other.example.com/")]),
        serde_json::Value::Array(vec![s("http://sub.example.com/another")]),
    ]);
    let mut names = wayback::process("example.com", Some(rows)).unwrap();
    names.sort();
    assert_eq!(
        names,
        vec!["other.example.com".to_string(), "sub.example.com".to_string()]
    );
}

#[test]
fn wayback_process_bad_row_is_decode_failure() {
    let rows = serde_json::Value::Array(vec![serde_json::Value::Array(vec![serde_json::Value::Null])]);
    let e = wayback::process("example.com", Some(rows)).unwrap_err();
    assert_eq!(e.kind, SourceKind::Wayback);
    assert_eq!(e.cause, SourceCause::DecodeFailure);
}

#[test]
fn wayback_process_no_parsable_urls_is_empty_result() {
    let rows = serde_json::Value::Array(vec![serde_json::Value::Array(vec![s("original")])]);
    let e = wayback::process("example.com", Some(rows)).unwrap_err();
    assert_eq!(e.cause, SourceCause::EmptyResult);
}

#[test]
fn wayback_error_message() {
    let e = wayback::WaybackError::new("anVubmxpa2VzdGVh.com".to_string());
    assert_eq!(
        e.message(),
        "WaybackMachine couldn't find any results for: anVubmxpa2VzdGVh.com"
    );
}
