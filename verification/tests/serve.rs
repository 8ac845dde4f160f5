use vitals::serve::{error_body_quoted, probe_verdict_text, route_decoded, Probe};
use vitals::serve::{error_body, route, Route};

#[test]
fn routing_is_a_pure_function() {
    assert_eq!(route("/api/snapshot"), Route::Snapshot);
    assert_eq!(route("/api/top"), Route::Top);
    assert_eq!(route("/api/pressure"), Route::Pressure);
    assert_eq!(route("/"), Route::Index);
    assert_eq!(route("/assets/app.js"), Route::Asset("assets/app.js".into()));
    assert_eq!(route("/../etc/passwd"), Route::NotFound);
}

#[test]
fn route_rejects_percent_encoded_and_backslash_traversal() {
    assert_eq!(route("/%2e%2e/%2e%2e/etc/passwd"), Route::NotFound);
    assert_eq!(route("/%2E%2E/%2E%2E/etc/passwd"), Route::NotFound);
    assert_eq!(route("/%2e%2E/%2E%2e/etc/passwd"), Route::NotFound);
    assert_eq!(route("/..%2f..%2fetc/passwd"), Route::NotFound);
    assert_eq!(route("/../../etc/passwd"), Route::NotFound);
    assert_eq!(route("/..%5c..%5cetc%5cpasswd"), Route::NotFound);
    assert_eq!(route("/assets\\..\\..\\etc\\passwd"), Route::NotFound);
    assert_eq!(route("/assets/index-abc123.js"), Route::Asset("assets/index-abc123.js".into()));
}

#[test]
fn queries_are_ignored_and_other_paths_name_assets() {
    assert_eq!(route("/api/top?n=3"), Route::Top);
    assert_eq!(route("/?x=1"), Route::Index);
    assert_eq!(route("/index.html"), Route::Index);
    assert_eq!(route("/api/other"), Route::Asset("api/other".into()));
    assert_eq!(route(""), Route::NotFound);
    assert_eq!(route("x"), Route::NotFound);
    assert_eq!(route("/assets/a%20b.js"), Route::Asset("assets/a b.js".into()));
}

#[test]
fn error_body_escapes_quotes_and_backslashes_into_valid_json() {
    let body = error_body(r#"bad path: "..\weird""#);
    let v: serde_json::Value = serde_json::from_str(&body).expect("error body must be valid JSON");
    assert_eq!(v["error"], r#"bad path: "..\weird""#);
    assert_eq!(error_body("x"), r#"{"error":"x","schema_version":1}"#);
}

#[test]
fn route_decoded_takes_an_already_decoded_path() {
    assert_eq!(route_decoded("/api/top"), Route::Top);
    assert_eq!(route_decoded("/index.html"), Route::Index);
    assert_eq!(route_decoded("/../secret"), Route::NotFound);
    assert_eq!(route_decoded("/a\\b"), Route::NotFound);
}

#[test]
fn probe_verdict_text_reads_the_reply_text() {
    assert_eq!(probe_verdict_text(false, false, ""), Probe::Free);
    assert_eq!(probe_verdict_text(true, false, ""), Probe::Stranger);
    assert_eq!(probe_verdict_text(true, true, "{\"schema_version\":1}"), Probe::Vitals);
    assert_eq!(probe_verdict_text(true, true, "HTTP/1.1 200 OK\r\n\r\nhello"), Probe::Stranger);
}

#[test]
fn error_body_quoted_wraps_an_already_quoted_message() {
    assert_eq!(error_body_quoted("\"boom\""), "{\"error\":\"boom\",\"schema_version\":1}");
    assert_eq!(error_body("a\"b"), "{\"error\":\"a\\\"b\",\"schema_version\":1}");
}

#[test]
fn error_body_escapes_control_characters_as_serde_json_does() {
    assert_eq!(
        error_body("tab\there\u{1}\u{1f}\u{8}\u{c}\r\n\\é\u{7f}"),
        "{\"error\":\"tab\\there\\u0001\\u001f\\b\\f\\r\\n\\\\é\u{7f}\",\"schema_version\":1}"
    );
}
