//! Which path the dashboard window's process is launched from.
use crate::text;
use std::path::Path;
use vstd::prelude::*;

verus! {

/// The text of `std::path::Path::parent` of the path `p`.
pub uninterp spec fn path_parent(p: Seq<char>) -> Option<Seq<char>>;

/// The text of `std::path::Path::extension` of the path `p`.
pub uninterp spec fn path_extension(p: Seq<char>) -> Option<Seq<char>>;

/// `Path::parent`: the path without its final component, `None` for a
/// root or an empty path. The parent of a path given as text is a prefix of
/// that text, so reading it back as text loses nothing.
#[verifier::external_body]
fn parent_of(p: &str) -> (r: Option<String>)
    ensures
        r matches Some(q) ==> path_parent(p@) == Some(q@),
        r is None ==> path_parent(p@) is None,
{
    match Path::new(p).parent() {
        Some(q) => Some(q.to_string_lossy().into_owned()),
        None => None,
    }
}

/// `Path::extension`: what follows the last `.` of the final component,
/// `None` when there is no such `.` or the name starts with it.
#[verifier::external_body]
fn extension_of(p: &str) -> (r: Option<String>)
    ensures
        r matches Some(e) ==> path_extension(p@) == Some(e@),
        r is None ==> path_extension(p@) is None,
{
    match Path::new(p).extension() {
        Some(e) => Some(e.to_string_lossy().into_owned()),
        None => None,
    }
}

/// The directory three levels up from an executable: the `.app` bundle
/// when the executable sits at `<name>.app/Contents/MacOS/<exe>`.
pub open spec fn bundle_dir(exe: Seq<char>) -> Option<Seq<char>> {
    match path_parent(exe) {
        Some(macos) => match path_parent(macos) {
            Some(contents) => path_parent(contents),
            None => None,
        },
        None => None,
    }
}

/// `bundle` when its extension is `app`, else `exe`.
pub open spec fn chosen_target(
    exe: Seq<char>,
    bundle: Option<Seq<char>>,
    extension: Option<Seq<char>>,
) -> Seq<char> {
    match bundle {
        Some(app) => if extension == Some("app"@) {
            app
        } else {
            exe
        },
        None => exe,
    }
}

/// The path LaunchServices should be told to open, by the paths' parents
/// and extension.
pub open spec fn launch_target_of(exe: Seq<char>) -> Seq<char> {
    match bundle_dir(exe) {
        Some(app) => chosen_target(exe, Some(app), path_extension(app)),
        None => exe,
    }
}

/// The surrounding bundle `bundle`, when its `extension` is `app`, or the
/// executable `exe` itself.
pub fn choose_target(exe: &str, bundle: Option<String>, extension: Option<String>) -> (t: String)
    ensures
        t@ == chosen_target(exe@, text::opt_text(bundle), text::opt_text(extension)),
{
    proof {
        reveal_strlit("app");
    }
    match bundle {
        Some(app) => {
            let is_app = match &extension {
                Some(e) => {
                    let cs = text::chars_of(e.as_str());
                    text::chars_eq_str(&cs, "app")
                },
                None => false,
            };
            if is_app {
                app
            } else {
                text::owned(exe)
            }
        },
        None => text::owned(exe),
    }
}

/// The path LaunchServices should be told to open: the surrounding `.app`
/// bundle when `exe` sits inside one at the standard
/// `<name>.app/Contents/MacOS/<exe>` depth, or `exe` itself otherwise — a
/// bare `cargo build` binary has no bundle around it at all.
pub fn launch_target(exe: &str) -> (t: String)
    ensures
        t@ == launch_target_of(exe@),
{
    let bundle = match parent_of(exe) {
        Some(macos) => match parent_of(macos.as_str()) {
            Some(contents) => parent_of(contents.as_str()),
            None => None,
        },
        None => None,
    };
    match bundle {
        Some(app) => {
            let extension = extension_of(app.as_str());
            choose_target(exe, Some(app), extension)
        },
        None => text::owned(exe),
    }
}

} // verus!
