use vitals::serve::{content_type, host_is_loopback};
use vitals::tray::child::launch_target;
use vitals::tray::login_item::{menu_state, LoginStatus};
use vitals::tray::update_ui::truncate_notes;
use vitals::update::codesign::requirement_for;
use vitals::window::quit_target;

#[test]
fn content_type_maps_known_extensions() {
    assert_eq!(content_type("index.html"), "text/html; charset=utf-8");
    assert_eq!(content_type("app.js"), "text/javascript; charset=utf-8");
    assert_eq!(content_type("app.css"), "text/css; charset=utf-8");
    assert_eq!(content_type("icon.svg"), "image/svg+xml");
}

#[test]
fn content_type_falls_back_to_octet_stream_for_unknown_extensions() {
    assert_eq!(content_type("data.bin"), "application/octet-stream");
    assert_eq!(content_type("no-extension"), "application/octet-stream");
}

#[test]
fn only_loopback_names_are_accepted() {
    let cases = [
        ("localhost", true),
        ("localhost:8830", true),
        ("LOCALHOST:8830", true),
        ("127.0.0.1", true),
        ("127.0.0.1:8830", true),
        ("[::1]", true),
        ("[::1]:8830", true),
        ("localhost.", true),
        ("localhost.:9", true),
        ("evil.com", false),
        ("evil.com:8830", false),
        ("localhost.evil.com", false),
        ("localhost.evil.com.", false),
        ("127.0.0.1.evil.com", false),
        ("xlocalhost", false),
        ("localhosts", false),
        ("[::1].evil.com", false),
        ("[::1]x", false),
        ("[::1]:80x", false),
        ("[::1", false),
        ("localhost:evil", false),
        ("::1", false),
    ];
    for (host, want) in cases {
        assert_eq!(
            host_is_loopback(Some(host)),
            want,
            "Host: {host:?} should {} be served",
            if want { "" } else { "not" }
        );
    }
    assert!(host_is_loopback(None));
}

#[test]
fn a_bundled_executable_launches_the_surrounding_app() {
    let exe = "/Applications/Vitals.app/Contents/MacOS/vitals";
    assert_eq!(launch_target(exe), "/Applications/Vitals.app");
}

#[test]
fn a_relative_bundled_executable_also_resolves_to_the_app() {
    let exe = "./dist/Vitals.app/Contents/MacOS/vitals";
    assert_eq!(launch_target(exe), "./dist/Vitals.app");
}

#[test]
fn a_bare_executable_launches_itself() {
    let exe = "/Users/bill/code/vitals/target/debug/vitals";
    assert_eq!(launch_target(exe), exe);
}

#[test]
fn menu_state_covers_every_status() {
    assert_eq!(menu_state(LoginStatus::Enabled), ("Start at Login", true, true));
    assert_eq!(menu_state(LoginStatus::NotRegistered), ("Start at Login", false, true));
    assert_eq!(
        menu_state(LoginStatus::RequiresApproval),
        ("Start at Login — approve in System Settings…", false, true)
    );
    assert_eq!(menu_state(LoginStatus::NotFound), ("Start at Login", false, false));
}

#[test]
fn notes_are_trimmed_and_cut_at_fifteen_hundred_characters() {
    assert_eq!(truncate_notes("  ### Added\n- x\n"), "### Added\n- x");
    let exact: String = "é".repeat(1_500);
    assert_eq!(truncate_notes(&exact), exact);
    let long: String = "é".repeat(1_501);
    let cut = truncate_notes(&long);
    assert_eq!(cut.chars().count(), 1_501);
    assert!(cut.ends_with('…'));
    assert!(cut.starts_with(&"é".repeat(1_500)));
}

#[test]
fn the_requirement_is_the_developer_id_designated_form() {
    assert_eq!(
        requirement_for("4WD8D5Y6NF"),
        "anchor apple generic and certificate leaf[subject.OU] = \"4WD8D5Y6NF\""
    );
}

#[test]
fn zero_and_one_are_never_signalled() {
    assert_eq!(quit_target(0), None);
    assert_eq!(quit_target(1), None);
}

#[test]
fn a_real_pid_is_signalled() {
    assert_eq!(quit_target(37_923), Some(37_923));
}
