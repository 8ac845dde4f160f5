use sha2::Digest;
use vitals::update::archive::{first_name_of, top_level, top_level_names};
use vitals::update::install::{Event, Install, Stage, Step};
use vitals::update::release::{archive_name, Release, Source, UpdateError, Version};

const ZEROS: &str = "0000000000000000000000000000000000000000000000000000000000000000";

/// A gzip-compressed tarball holding one small file at each of `paths`.
fn tarball(paths: &[&str]) -> Vec<u8> {
    let gz = flate2::write::GzEncoder::new(Vec::new(), flate2::Compression::default());
    let mut builder = tar::Builder::new(gz);
    for p in paths {
        let data = b"x";
        let mut header = tar::Header::new_gnu();
        header.set_size(data.len() as u64);
        header.set_mode(0o644);
        header.set_cksum();
        builder.append_data(&mut header, p, &data[..]).unwrap();
    }
    builder.into_inner().unwrap().finish().unwrap()
}

fn bundle_tarball() -> Vec<u8> {
    tarball(&["Vitals.app/Contents/Info.plist", "Vitals.app/Contents/MacOS/vitals"])
}

/// `SHA256SUMS` listing the release's tarball with the digest of `bytes`.
fn sums_for(bytes: &[u8]) -> String {
    let digest = sha2::Sha256::digest(bytes);
    let hex: String = digest.iter().map(|b| format!("{b:02x}")).collect();
    format!("{hex}  Vitals-0.2.0-arm64.tar.gz\n")
}

fn release() -> Release {
    let version = Version { major: 0, minor: 2, patch: 0 };
    let base = "https://github.com/billsun9305/vitals/releases/download/v0.2.0/";
    Release {
        version,
        notes: String::new(),
        page_url: String::new(),
        archive_url: format!("{base}Vitals-0.2.0-arm64.tar.gz"),
        sums_url: format!("{base}SHA256SUMS"),
        archive_name: archive_name(version),
    }
}

fn sums() -> String {
    format!("{ZEROS}  Vitals-0.2.0-arm64.tar.gz\n")
}

fn begin() -> Install {
    let (install, step) = Install::start(&Source::github(), release());
    assert!(matches!(step, Step::Download(ref u) if u.ends_with("/SHA256SUMS")), "{step:?}");
    install
}

fn until_version(i: &mut Install) {
    assert!(matches!(i.on_event(Event::Downloaded(Ok(()))), Step::Download(ref u) if u.ends_with(".tar.gz")));
    assert!(matches!(i.on_event(Event::Downloaded(Ok(()))), Step::ReadSums));
    let bytes = bundle_tarball();
    assert!(matches!(i.on_event(Event::SumsRead(Ok(sums_for(&bytes)))), Step::ReadArchive));
    assert!(matches!(i.on_event(Event::ArchiveRead(Ok(bytes))), Step::Unpack));
    assert!(matches!(i.on_event(Event::Unpacked(Ok(()))), Step::ReadVersion));
}

#[test]
fn a_good_release_passes_every_check_in_order() {
    let mut i = begin();
    until_version(&mut i);
    assert!(matches!(i.on_event(Event::VersionRead(Ok(Version { major: 0, minor: 2, patch: 0 }))), Step::AskTeam));
    assert!(matches!(i.on_event(Event::TeamOfSelf(Some("4WD8D5Y6NF".into()))), Step::VerifyTeam(ref t) if t == "4WD8D5Y6NF"));
    assert!(matches!(i.on_event(Event::Verified(Ok(()))), Step::Finish(true)));
    assert_eq!(i.stage(), Stage::Ready(true));
}

#[test]
fn an_ad_hoc_copy_skips_the_signature_check() {
    let mut i = begin();
    until_version(&mut i);
    assert!(matches!(i.on_event(Event::VersionRead(Ok(Version { major: 0, minor: 2, patch: 0 }))), Step::AskTeam));
    assert!(matches!(i.on_event(Event::TeamOfSelf(None)), Step::Finish(false)));
    assert_eq!(i.stage(), Stage::Ready(false));
}

#[test]
fn a_wrong_hash_is_rejected_and_nothing_changes() {
    let mut i = begin();
    i.on_event(Event::Downloaded(Ok(())));
    i.on_event(Event::Downloaded(Ok(())));
    i.on_event(Event::SumsRead(Ok(sums())));
    let step = i.on_event(Event::ArchiveRead(Ok(bundle_tarball())));
    assert!(matches!(step, Step::Stop(UpdateError::BadChecksum)), "{step:?}");
    assert_eq!(i.stage(), Stage::Failed);
    assert!(matches!(i.on_event(Event::Unpacked(Ok(()))), Step::Stop(_)));
    assert_eq!(i.stage(), Stage::Failed);
}

#[test]
fn sums_without_the_tarball_are_a_bad_release() {
    let mut i = begin();
    i.on_event(Event::Downloaded(Ok(())));
    i.on_event(Event::Downloaded(Ok(())));
    let step = i.on_event(Event::SumsRead(Ok(format!("{ZEROS}  other.tar.gz\n"))));
    assert!(
        matches!(&step, Step::Stop(UpdateError::BadRelease(m)) if m == "SHA256SUMS has no entry for Vitals-0.2.0-arm64.tar.gz"),
        "{step:?}"
    );
}

#[test]
fn a_tarball_with_two_top_level_entries_is_rejected() {
    let mut i = begin();
    i.on_event(Event::Downloaded(Ok(())));
    i.on_event(Event::Downloaded(Ok(())));
    let bytes = tarball(&["Vitals.app/Contents/Info.plist", "Evil.app/payload", "Vitals.app/x"]);
    i.on_event(Event::SumsRead(Ok(sums_for(&bytes))));
    let step = i.on_event(Event::ArchiveRead(Ok(bytes)));
    assert!(
        matches!(&step, Step::Stop(UpdateError::BadRelease(m))
            if m == r#"archive top level is {"Evil.app", "Vitals.app"}, expected exactly ["Vitals.app"]"#),
        "{step:?}"
    );
}

#[test]
fn a_tarball_carrying_the_wrong_version_is_rejected() {
    let mut i = begin();
    until_version(&mut i);
    let step = i.on_event(Event::VersionRead(Ok(Version { major: 0, minor: 1, patch: 9 })));
    assert!(
        matches!(&step, Step::Stop(UpdateError::BadRelease(m)) if m == "the archive contains Vitals 0.1.9, not 0.2.0"),
        "{step:?}"
    );
}

#[test]
fn a_rejected_signature_stops_the_install() {
    let mut i = begin();
    until_version(&mut i);
    i.on_event(Event::VersionRead(Ok(Version { major: 0, minor: 2, patch: 0 })));
    i.on_event(Event::TeamOfSelf(Some("T".into())));
    let step = i.on_event(Event::Verified(Err("OSStatus -67050".into())));
    assert!(matches!(&step, Step::Stop(UpdateError::BadSignature(m)) if m == "OSStatus -67050"), "{step:?}");
    assert_eq!(
        match step { Step::Stop(e) => e.message(), _ => String::new() },
        "the update's code signature was rejected: OSStatus -67050"
    );
}

#[test]
fn server_errors_are_reported_and_nothing_changes() {
    let mut i = begin();
    let step = i.on_event(Event::Downloaded(Err(UpdateError::Http("x/SHA256SUMS: HTTP 500".into()))));
    assert!(matches!(&step, Step::Stop(UpdateError::Http(m)) if m.ends_with("HTTP 500")), "{step:?}");
    assert_eq!(i.stage(), Stage::Failed);
}

#[test]
fn an_archive_from_elsewhere_never_starts() {
    let mut r = release();
    r.archive_url = "https://evil.example/Vitals-0.2.0-arm64.tar.gz".into();
    let (i, step) = Install::start(&Source::github(), r);
    assert_eq!(i.stage(), Stage::Failed);
    assert!(matches!(&step, Step::Stop(UpdateError::BadRelease(m))
        if m == "https://evil.example/Vitals-0.2.0-arm64.tar.gz is not under https://github.com/billsun9305/vitals/releases/download/"), "{step:?}");
}

#[test]
fn findings_out_of_order_stop_the_install() {
    let mut i = begin();
    let step = i.on_event(Event::Unpacked(Ok(())));
    assert!(matches!(step, Step::Stop(UpdateError::Io(_))), "{step:?}");
    assert_eq!(i.stage(), Stage::Failed);
}

#[test]
fn a_tarball_that_does_not_unzip_is_an_io_error() {
    let mut i = begin();
    i.on_event(Event::Downloaded(Ok(())));
    i.on_event(Event::Downloaded(Ok(())));
    let bytes = b"not a gzip stream".to_vec();
    i.on_event(Event::SumsRead(Ok(sums_for(&bytes))));
    let step = i.on_event(Event::ArchiveRead(Ok(bytes)));
    assert!(matches!(step, Step::Stop(UpdateError::Io(_))), "{step:?}");
    assert!(matches!(top_level(b"not a gzip stream"), Err(UpdateError::Io(_))));
}

#[test]
fn the_top_level_is_the_distinct_first_names_sorted() {
    let bytes = tarball(&["b/c", "./Vitals.app/x", "Vitals.app/Contents/y", "a"]);
    assert_eq!(top_level(&bytes), Ok(vec!["Vitals.app".to_string(), "a".to_string(), "b".to_string()]));
    assert_eq!(
        top_level_names(&vec!["z/1".into(), "/abs/2".into(), "../up/3".into(), "z".into()], &None),
        Ok(vec!["abs".to_string(), "up".to_string(), "z".to_string()])
    );
}

#[test]
fn an_entry_with_no_name_is_refused_before_a_read_error() {
    assert_eq!(
        top_level_names(&vec!["a/b".into(), ".//./".into(), "c".into()], &Some("boom".into())),
        Err(UpdateError::BadRelease("archive entry with no name: .//./".into()))
    );
    assert_eq!(top_level_names(&vec!["a/b".into()], &Some("boom".into())), Err(UpdateError::Io("boom".into())));
    assert_eq!(first_name_of("./x/y"), Some("x".to_string()));
    assert_eq!(first_name_of("/"), None);
}

#[test]
fn a_tarball_holding_a_bare_dot_entry_is_refused() {
    let bytes = tarball(&["Vitals.app/x", "./"]);
    let r = top_level(&bytes);
    assert!(matches!(&r, Err(UpdateError::BadRelease(m)) if m.starts_with("archive entry with no name: ")), "{r:?}");
}
