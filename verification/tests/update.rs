use std::time::Instant;
use vitals::update::checker::{check_now, CheckOutcome, UpdateState};
use vitals::update::release::{archive_name, parse_latest, Release, Source, UpdateError, Version};

fn release(version: &str) -> Release {
    let version = Version::parse(version).unwrap();
    Release {
        version,
        notes: String::new(),
        page_url: String::new(),
        archive_url: String::new(),
        sums_url: String::new(),
        archive_name: archive_name(version),
    }
}

#[test]
fn a_newer_release_becomes_available() {
    let mut state = UpdateState { checking: true, ..Default::default() };
    state.apply(CheckOutcome::Available(release("0.2.0")), Instant::now());
    assert_eq!(state.available.as_ref().map(|r| r.version.to_text()), Some("0.2.0".into()));
    assert!(!state.checking);
    assert!(matches!(state.last_check, Some((_, Ok(())))));
}

#[test]
fn a_newer_latest_replaces_an_older_available() {
    let mut state = UpdateState::default();
    state.apply(CheckOutcome::Available(release("0.2.0")), Instant::now());
    state.apply(CheckOutcome::Available(release("0.3.0")), Instant::now());
    assert_eq!(state.available.as_ref().map(|r| r.version.to_text()), Some("0.3.0".into()));
}

#[test]
fn up_to_date_clears_available() {
    let mut state = UpdateState::default();
    state.apply(CheckOutcome::Available(release("0.2.0")), Instant::now());
    state.apply(CheckOutcome::UpToDate(Version::parse("0.1.0").unwrap()), Instant::now());
    assert!(state.available.is_none());
    assert!(!state.checking);
}

#[test]
fn a_failure_keeps_available_and_records_the_reason() {
    let mut state = UpdateState { checking: true, ..Default::default() };
    state.apply(CheckOutcome::Available(release("0.2.0")), Instant::now());
    state.apply(CheckOutcome::Failed("offline".into()), Instant::now());
    assert!(state.available.is_some(), "a failed check must not forget a known update");
    assert!(!state.checking);
    assert!(matches!(&state.last_check, Some((_, Err(r))) if r == "offline"));
}

const LATEST: &str = r####"{
  "tag_name": "v0.2.0",
  "name": "Vitals 0.2.0",
  "draft": false,
  "prerelease": false,
  "html_url": "https://github.com/billsun9305/vitals/releases/tag/v0.2.0",
  "body": "### Added\n- Things.\n",
  "assets": [
    {"name": "Vitals-0.2.0.dmg",
     "browser_download_url": "https://github.com/billsun9305/vitals/releases/download/v0.2.0/Vitals-0.2.0.dmg"},
    {"name": "Vitals-0.2.0-arm64.tar.gz",
     "browser_download_url": "https://github.com/billsun9305/vitals/releases/download/v0.2.0/Vitals-0.2.0-arm64.tar.gz"},
    {"name": "SHA256SUMS",
     "browser_download_url": "https://github.com/billsun9305/vitals/releases/download/v0.2.0/SHA256SUMS"}
  ]
}"####;

fn latest_with(edit: impl FnOnce(&mut serde_json::Value)) -> Vec<u8> {
    let mut v: serde_json::Value = serde_json::from_str(LATEST).unwrap();
    edit(&mut v);
    serde_json::to_vec(&v).unwrap()
}

#[test]
fn latest_json_parses_to_a_release() {
    let release = parse_latest(LATEST.as_bytes(), &Source::github()).unwrap();
    assert_eq!(release.version, Version::parse("0.2.0").unwrap());
    assert_eq!(release.notes, "### Added\n- Things.\n");
    assert_eq!(release.page_url, "https://github.com/billsun9305/vitals/releases/tag/v0.2.0");
    assert_eq!(release.archive_name, "Vitals-0.2.0-arm64.tar.gz");
    assert_eq!(
        release.archive_url,
        "https://github.com/billsun9305/vitals/releases/download/v0.2.0/Vitals-0.2.0-arm64.tar.gz"
    );
    assert_eq!(
        release.sums_url,
        "https://github.com/billsun9305/vitals/releases/download/v0.2.0/SHA256SUMS"
    );
}

#[test]
fn drafts_and_pre_releases_are_rejected() {
    let draft = latest_with(|v| v["draft"] = serde_json::Value::Bool(true));
    let pre = latest_with(|v| v["prerelease"] = serde_json::Value::Bool(true));
    for json in [draft, pre] {
        assert!(matches!(parse_latest(&json, &Source::github()), Err(UpdateError::BadRelease(_))));
    }
}

#[test]
fn a_suffixed_tag_is_a_bad_release_not_a_bad_version() {
    let json = latest_with(|v| v["tag_name"] = "v0.2.0-rc.1".into());
    assert!(matches!(parse_latest(&json, &Source::github()), Err(UpdateError::BadRelease(_))));
}

#[test]
fn a_release_missing_an_asset_is_rejected() {
    let no_tarball = latest_with(|v| {
        v["assets"].as_array_mut().unwrap().retain(|a| a["name"] != "Vitals-0.2.0-arm64.tar.gz")
    });
    let no_sums = latest_with(|v| v["assets"].as_array_mut().unwrap().retain(|a| a["name"] != "SHA256SUMS"));
    let no_assets = latest_with(|v| v["assets"] = serde_json::Value::Null);
    for json in [no_tarball, no_sums, no_assets] {
        assert!(matches!(parse_latest(&json, &Source::github()), Err(UpdateError::BadRelease(_))));
    }
}

#[test]
fn an_asset_served_from_elsewhere_is_rejected() {
    let other_host = latest_with(|v| {
        v["assets"][1]["browser_download_url"] =
            "https://evil.example/releases/download/v0.2.0/Vitals-0.2.0-arm64.tar.gz".into()
    });
    let other_name = latest_with(|v| {
        v["assets"][1]["browser_download_url"] =
            "https://github.com/billsun9305/vitals/releases/download/v0.2.0/other.tar.gz".into()
    });
    let other_path = latest_with(|v| {
        v["assets"][1]["browser_download_url"] =
            "https://github.com/billsun9305/vitals/archive/Vitals-0.2.0-arm64.tar.gz".into()
    });
    for json in [other_host, other_name, other_path] {
        assert!(matches!(parse_latest(&json, &Source::github()), Err(UpdateError::BadRelease(_))));
    }
}

#[test]
fn not_json_is_a_bad_release() {
    assert!(matches!(
        parse_latest(b"<html>rate limited</html>", &Source::github()),
        Err(UpdateError::BadRelease(_))
    ));
}

fn latest_json(base: &str, version: &str) -> Vec<u8> {
    let tag = format!("v{version}");
    let tarball = format!("Vitals-{version}-arm64.tar.gz");
    let mut v: serde_json::Value = serde_json::from_str(LATEST).unwrap();
    v["tag_name"] = tag.clone().into();
    v["html_url"] = format!("{base}releases/tag/{tag}").into();
    v["assets"] = serde_json::Value::Array(vec![
        serde_json::from_str(&format!(
            r#"{{"name": "{tarball}", "browser_download_url": "{base}{tag}/{tarball}"}}"#
        ))
        .unwrap(),
        serde_json::from_str(&format!(
            r#"{{"name": "SHA256SUMS", "browser_download_url": "{base}{tag}/SHA256SUMS"}}"#
        ))
        .unwrap(),
    ]);
    serde_json::to_vec(&v).unwrap()
}

#[test]
fn check_now_reports_newer_same_and_broken() {
    let current = Version::parse("0.1.0").unwrap();
    let base = "http://127.0.0.1:8123/";
    let source = Source::loopback(base).unwrap();

    let outcome = check_now(&source, current, Ok(latest_json(base, "0.2.0")));
    assert!(matches!(&outcome, CheckOutcome::Available(r) if r.version.to_text() == "0.2.0"), "{outcome:?}");

    let outcome = check_now(&source, current, Ok(latest_json(base, "0.1.0")));
    assert!(matches!(&outcome, CheckOutcome::UpToDate(v) if v.to_text() == "0.1.0"), "{outcome:?}");

    let failed = Err(UpdateError::Http(format!("{}releases/latest: HTTP 503", base)));
    let outcome = check_now(&source, current, failed);
    assert!(matches!(&outcome, CheckOutcome::Failed(r) if r.contains("503")), "{outcome:?}");

    let outcome = check_now(&source, current, Ok(b"nope".to_vec()));
    assert!(matches!(&outcome, CheckOutcome::Failed(r) if r.starts_with("bad release: ")), "{outcome:?}");
}
