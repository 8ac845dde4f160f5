use vitals::json::Json;
use vitals::update::release::release_from_json;
use vitals::update::release::{archive_name, expected_sum, parse_sums, Source, UpdateError, Version};

#[test]
fn version_parses_with_and_without_the_v() {
    let v = Version { major: 0, minor: 2, patch: 0 };
    assert_eq!(Version::parse("0.2.0"), Ok(v));
    assert_eq!(Version::parse("v0.2.0"), Ok(v));
    assert_eq!(Version::parse(" v0.2.0\n"), Ok(v));
    assert_eq!(v.to_text(), "0.2.0");
}

#[test]
fn version_rejects_anything_but_three_numbers() {
    for bad in ["0.2.0-beta.1", "0.2", "0.2.0.1", "a.b.c", "", "v"] {
        assert!(
            matches!(Version::parse(bad), Err(UpdateError::BadVersion(_))),
            "{bad:?} should be rejected"
        );
    }
}

#[test]
fn versions_compare_numerically_not_lexically() {
    let v = |s| Version::parse(s).unwrap();
    assert!(v("0.10.0") > v("0.9.9"));
    assert!(v("1.0.0") > v("0.99.99"));
    assert!(v("0.1.1") > v("0.1.0"));
    assert_eq!(v("0.1.0"), v("v0.1.0"));
    assert_eq!(v("0.10.0").to_text(), "0.10.0");
}

#[test]
fn current_version_is_the_crate_version() {
    assert_eq!(Version::current().to_text(), vitals::update::release::PACKAGE_VERSION);
}

#[test]
fn from_crate_version_never_panics_on_a_pre_release_suffix() {
    let v = |major, minor, patch| Version { major, minor, patch };
    assert_eq!(Version::from_crate_version("0.2.0-beta.1"), v(0, 2, 0));
    assert_eq!(Version::from_crate_version("0.1.0"), v(0, 1, 0));
    assert_eq!(Version::from_crate_version("garbage"), v(0, 0, 0));
}

#[test]
fn sums_parse_and_look_up_by_name() {
    let sums = "\
0000000000000000000000000000000000000000000000000000000000000000  Vitals-0.2.0-arm64.tar.gz
ffffffffffffffffffffffffffffffffffffffffffffffffffffffffffffffff *Vitals-0.2.0.dmg
this line is junk
abc  too-short.txt
";
    assert_eq!(
        parse_sums(sums),
        vec![
            ("0".repeat(64), "Vitals-0.2.0-arm64.tar.gz".to_string()),
            ("f".repeat(64), "Vitals-0.2.0.dmg".to_string()),
        ]
    );
    assert_eq!(expected_sum(sums, "Vitals-0.2.0-arm64.tar.gz"), Some([0u8; 32]));
    assert_eq!(expected_sum(sums, "Vitals-0.2.0.dmg"), Some([0xffu8; 32]));
    assert_eq!(expected_sum(sums, "missing"), None);
    let upper = format!("{}  x\n", "AB".repeat(32));
    assert_eq!(expected_sum(&upper, "x"), Some([0xabu8; 32]));
}

#[test]
fn github_source_points_at_the_repository() {
    let s = Source::github();
    assert_eq!(s.api_latest, "https://api.github.com/repos/billsun9305/vitals/releases/latest");
    assert_eq!(s.download_base, "https://github.com/billsun9305/vitals/releases/download/");
}

#[test]
fn loopback_accepts_only_local_http_bases() {
    let s = Source::loopback("http://127.0.0.1:8000/").unwrap();
    assert_eq!(s.api_latest, "http://127.0.0.1:8000/releases/latest");
    assert_eq!(s.download_base, "http://127.0.0.1:8000/");
    assert!(Source::loopback("http://localhost:9/").is_ok());
    for bad in [
        "https://127.0.0.1:8000/",
        "http://127.0.0.1:8000",
        "http://127.0.0.1/",
        "http://127.0.0.2:8000/",
        "http://example.com:8000/",
        "http://127.0.0.1:8000/sub/",
        "http://127.0.0.1:80x/",
        "",
    ] {
        assert!(
            matches!(Source::loopback(bad), Err(UpdateError::BadSource(_))),
            "{bad:?} should be rejected"
        );
    }
}

#[test]
fn errors_display_their_reason() {
    assert_eq!(
        UpdateError::BadChecksum.message(),
        "the download's SHA-256 does not match SHA256SUMS"
    );
    assert_eq!(UpdateError::Http("x: HTTP 404".into()).message(), "x: HTTP 404");
}

#[test]
fn archive_names_follow_the_asset_contract() {
    let v = Version { major: 0, minor: 2, patch: 0 };
    assert_eq!(archive_name(v), "Vitals-0.2.0-arm64.tar.gz");
}

#[test]
fn version_errors_quote_the_text_and_name_the_part() {
    assert_eq!(
        Version::parse(" 1.x.3 "),
        Err(UpdateError::BadVersion("\"1.x.3\": minor is not a number".into()))
    );
    assert_eq!(
        Version::parse("1"),
        Err(UpdateError::BadVersion("\"1\": missing minor".into()))
    );
    assert_eq!(
        Version::parse("+1.2.3"),
        Ok(Version { major: 1, minor: 2, patch: 3 })
    );
    assert!(Version::parse("4294967296.0.0").is_err());
    assert_eq!(Version::parse("4294967295.0.0").unwrap().major, u32::MAX);
}

fn asset(name: &str, url: &str) -> Json {
    Json::Object(vec![
        ("name".to_string(), Json::Str(name.to_string())),
        ("browser_download_url".to_string(), Json::Str(url.to_string())),
    ])
}

fn latest_document(tag: &str, draft: bool, assets: Vec<Json>) -> Json {
    Json::Object(vec![
        ("tag_name".to_string(), Json::Str(tag.to_string())),
        ("draft".to_string(), Json::Bool(draft)),
        ("prerelease".to_string(), Json::Bool(false)),
        ("body".to_string(), Json::Str("notes".to_string())),
        ("assets".to_string(), Json::Array(assets)),
    ])
}

#[test]
fn release_from_json_reads_a_document_built_by_hand() {
    let base = "https://github.com/billsun9305/vitals/releases/download/";
    let doc = latest_document(
        "v0.3.1",
        false,
        vec![
            asset("Vitals-0.3.1-arm64.tar.gz", &format!("{base}v0.3.1/Vitals-0.3.1-arm64.tar.gz")),
            asset("SHA256SUMS", &format!("{base}v0.3.1/SHA256SUMS")),
        ],
    );
    let rel = release_from_json(&doc, &Source::github()).unwrap();
    assert_eq!(rel.version, Version { major: 0, minor: 3, patch: 1 });
    assert_eq!(rel.notes, "notes");
    assert_eq!(rel.archive_url, format!("{base}v0.3.1/Vitals-0.3.1-arm64.tar.gz"));
    assert_eq!(rel.sums_url, format!("{base}v0.3.1/SHA256SUMS"));
    assert_eq!(rel.archive_name, "Vitals-0.3.1-arm64.tar.gz");
    assert_eq!(rel.page_url, "https://github.com/billsun9305/vitals/releases/tag/v0.3.1");
}

#[test]
fn release_from_json_refuses_drafts_and_missing_sums() {
    let base = "https://github.com/billsun9305/vitals/releases/download/";
    let archive = || asset("Vitals-0.3.1-arm64.tar.gz", &format!("{base}v0.3.1/Vitals-0.3.1-arm64.tar.gz"));
    let draft = latest_document("v0.3.1", true, vec![archive()]);
    assert!(matches!(
        release_from_json(&draft, &Source::github()),
        Err(UpdateError::BadRelease(m)) if m == "latest release is a draft"
    ));
    let no_sums = latest_document("v0.3.1", false, vec![archive()]);
    assert!(matches!(release_from_json(&no_sums, &Source::github()), Err(UpdateError::BadRelease(_))));
}
