//! The order of an install and what each step must find before the next
//! one runs: stage next to the bundle, download `SHA256SUMS` then the
//! tarball, check the tarball's hash and its top level, unpack, check the
//! version inside, check the signature — then, and only then, swap.
//!
//! The file and system work of each step (downloading, reading the
//! tarball, unpacking, asking the Security framework) is the caller's;
//! hashing the tarball and reading its top level happen here, on the bytes
//! the caller read. This module is the sequence, as a machine that is told
//! what each step found and answers with the next.
use crate::text;
use crate::update::archive;
use crate::update::release::{self, debug_quoted, debug_text, ErrorText, Release, ReleaseText, Source, UpdateError, Version};
use vstd::prelude::*;

verus! {

/// The tarball's one top-level entry, and the name the bundle keeps.
pub const BUNDLE_NAME: &'static str = "Vitals.app";

/// Where an install stands: which finding it waits for next.
#[derive(Debug, Clone, Copy, PartialEq, Eq)]
pub enum Stage {
    /// The download of `SHA256SUMS`.
    Sums,
    /// The download of the tarball.
    Archive,
    /// The text of the downloaded `SHA256SUMS`.
    SumsText,
    /// The tarball's bytes, whose SHA-256 must be this digest and whose
    /// top level must be exactly the bundle.
    Hash([u8; 32]),
    /// The unpacking.
    Unpack,
    /// The unpacked bundle's `CFBundleShortVersionString`.
    Version,
    /// The running copy's Team ID.
    Team,
    /// The signature check of the new bundle against that team.
    Signature,
    /// Every check passed; the bundle may be swapped in. Whether the
    /// signature was checked.
    Ready(bool),
    /// A step failed; nothing more happens.
    Failed,
}

/// What the caller does next.
#[derive(Debug)]
pub enum Step {
    /// Download this URL into the staging directory.
    Download(String),
    /// Read the downloaded `SHA256SUMS`.
    ReadSums,
    /// Read the downloaded tarball's bytes.
    ReadArchive,
    /// Unpack the tarball into the staging directory.
    Unpack,
    /// Read the unpacked bundle's version.
    ReadVersion,
    /// Ask which Team ID signed the running copy.
    AskTeam,
    /// Check the unpacked bundle's signature against this Team ID.
    VerifyTeam(String),
    /// Done: swap the bundle in. Whether the signature was checked.
    Finish(bool),
    /// Stop, reporting this error; the installed bundle stays as it is.
    Stop(UpdateError),
}

/// What a step found.
#[derive(Debug)]
pub enum Event {
    Downloaded(Result<(), UpdateError>),
    SumsRead(Result<String, UpdateError>),
    ArchiveRead(Result<Vec<u8>, UpdateError>),
    Unpacked(Result<(), UpdateError>),
    VersionRead(Result<Version, UpdateError>),
    TeamOfSelf(Option<String>),
    Verified(Result<(), String>),
}

/// `Stage` with the awaited digest as a byte sequence.
pub enum StageView {
    Sums,
    Archive,
    SumsText,
    Hash(Seq<u8>),
    Unpack,
    Version,
    Team,
    Signature,
    Ready(bool),
    Failed,
}

impl View for Stage {
    type V = StageView;

    open spec fn view(&self) -> StageView {
        match self {
            Stage::Sums => StageView::Sums,
            Stage::Archive => StageView::Archive,
            Stage::SumsText => StageView::SumsText,
            Stage::Hash(d) => StageView::Hash(d@),
            Stage::Unpack => StageView::Unpack,
            Stage::Version => StageView::Version,
            Stage::Team => StageView::Team,
            Stage::Signature => StageView::Signature,
            Stage::Ready(b) => StageView::Ready(*b),
            Stage::Failed => StageView::Failed,
        }
    }
}

/// `Step` with its texts as character sequences.
pub enum StepView {
    Download(Seq<char>),
    ReadSums,
    ReadArchive,
    Unpack,
    ReadVersion,
    AskTeam,
    VerifyTeam(Seq<char>),
    Finish(bool),
    Stop(ErrorText),
}

/// `Event` with its texts as character sequences.
pub enum EventView {
    Downloaded(Result<(), ErrorText>),
    SumsRead(Result<Seq<char>, ErrorText>),
    ArchiveRead(Result<Seq<u8>, ErrorText>),
    Unpacked(Result<(), ErrorText>),
    VersionRead(Result<Version, ErrorText>),
    TeamOfSelf(Option<Seq<char>>),
    Verified(Result<(), Seq<char>>),
}

impl View for Step {
    type V = StepView;

    open spec fn view(&self) -> StepView {
        match self {
            Step::Download(u) => StepView::Download(u@),
            Step::ReadSums => StepView::ReadSums,
            Step::ReadArchive => StepView::ReadArchive,
            Step::Unpack => StepView::Unpack,
            Step::ReadVersion => StepView::ReadVersion,
            Step::AskTeam => StepView::AskTeam,
            Step::VerifyTeam(t) => StepView::VerifyTeam(t@),
            Step::Finish(b) => StepView::Finish(*b),
            Step::Stop(e) => StepView::Stop(e@),
        }
    }
}

impl View for Event {
    type V = EventView;

    open spec fn view(&self) -> EventView {
        match self {
            Event::Downloaded(r) => EventView::Downloaded(release::viewed(*r)),
            Event::SumsRead(r) => EventView::SumsRead(
                match r {
                    Ok(s) => Ok(s@),
                    Err(e) => Err(e@),
                },
            ),
            Event::ArchiveRead(r) => EventView::ArchiveRead(
                match r {
                    Ok(b) => Ok(b@),
                    Err(e) => Err(e@),
                },
            ),
            Event::Unpacked(r) => EventView::Unpacked(release::viewed(*r)),
            Event::VersionRead(r) => EventView::VersionRead(release::viewed(*r)),
            Event::TeamOfSelf(t) => EventView::TeamOfSelf(
                match t {
                    Some(s) => Some(s@),
                    None => None,
                },
            ),
            Event::Verified(r) => EventView::Verified(
                match r {
                    Ok(()) => Ok(()),
                    Err(s) => Err(s@),
                },
            ),
        }
    }
}

/// `{"a", "b"}`: the names quoted and escaped, as a set of strings prints.
pub open spec fn set_text(names: Seq<Seq<char>>) -> Seq<char> {
    "{"@ + quoted_list(names) + "}"@
}

/// The names quoted and escaped, joined by `", "`.
pub open spec fn quoted_list(names: Seq<Seq<char>>) -> Seq<char>
    decreases names.len(),
{
    if names.len() == 0 {
        Seq::empty()
    } else if names.len() == 1 {
        debug_quoted(names[0])
    } else {
        quoted_list(names.drop_last()) + ", "@ + debug_quoted(names.last())
    }
}

/// The error for an archive whose top level is not exactly the bundle.
pub open spec fn bad_top_level(names: Seq<Seq<char>>) -> ErrorText {
    ErrorText::BadRelease(
        "archive top level is "@ + set_text(names) + ", expected exactly ["@ + debug_quoted(
            BUNDLE_NAME@,
        ) + "]"@,
    )
}

/// The error for a bundle of another version than the release's.
pub open spec fn wrong_version(found: Version, wanted: Version) -> ErrorText {
    ErrorText::BadRelease(
        "the archive contains Vitals "@ + release::version_text(found) + ", not "@
            + release::version_text(wanted),
    )
}

/// Where an install that passed its source check stands first, and what it
/// does first: the archive must be under the source's download base.
pub open spec fn opening(r: ReleaseText, download_base: Seq<char>) -> (StageView, StepView) {
    if text::starts_with(r.archive_url, download_base) {
        (StageView::Sums, StepView::Download(r.sums_url))
    } else {
        (
            StageView::Failed,
            StepView::Stop(
                ErrorText::BadRelease(r.archive_url + " is not under "@ + download_base),
            ),
        )
    }
}

/// The failure `Failed` answers with when told anything: the install is over.
pub open spec fn already_stopped() -> ErrorText {
    ErrorText::Io("the install has already stopped"@)
}

/// The failure for a finding the install was not waiting for.
pub open spec fn out_of_order() -> ErrorText {
    ErrorText::Io("the install was told of a step out of order"@)
}

/// One step of the install: from `stage`, given what the step found, the
/// next stage and what to do next.
pub open spec fn advance(stage: StageView, r: ReleaseText, e: EventView) -> (StageView, StepView) {
    let fail = |x: ErrorText| (StageView::Failed, StepView::Stop(x));
    match stage {
        StageView::Failed => fail(already_stopped()),
        StageView::Ready(b) => (StageView::Ready(b), StepView::Finish(b)),
        StageView::Sums => match e {
            EventView::Downloaded(Ok(())) => (StageView::Archive, StepView::Download(r.archive_url)),
            EventView::Downloaded(Err(x)) => fail(x),
            _ => fail(out_of_order()),
        },
        StageView::Archive => match e {
            EventView::Downloaded(Ok(())) => (StageView::SumsText, StepView::ReadSums),
            EventView::Downloaded(Err(x)) => fail(x),
            _ => fail(out_of_order()),
        },
        StageView::SumsText => match e {
            EventView::SumsRead(Ok(sums)) => match release::expected_digest(sums, r.archive_name) {
                Some(d) => (StageView::Hash(d), StepView::ReadArchive),
                None => fail(
                    ErrorText::BadRelease("SHA256SUMS has no entry for "@ + r.archive_name),
                ),
            },
            EventView::SumsRead(Err(x)) => fail(x),
            _ => fail(out_of_order()),
        },
        StageView::Hash(want) => match e {
            EventView::ArchiveRead(Ok(bytes)) => if archive::sha256_of_bytes(bytes) != want {
                fail(ErrorText::BadChecksum)
            } else {
                match archive::archive_top_level(bytes) {
                    Err(x) => fail(x),
                    Ok(names) => if names == seq![BUNDLE_NAME@] {
                        (StageView::Unpack, StepView::Unpack)
                    } else {
                        fail(bad_top_level(names))
                    },
                }
            },
            EventView::ArchiveRead(Err(x)) => fail(x),
            _ => fail(out_of_order()),
        },
        StageView::Unpack => match e {
            EventView::Unpacked(Ok(())) => (StageView::Version, StepView::ReadVersion),
            EventView::Unpacked(Err(x)) => fail(x),
            _ => fail(out_of_order()),
        },
        StageView::Version => match e {
            EventView::VersionRead(Ok(v)) => if v == r.version {
                (StageView::Team, StepView::AskTeam)
            } else {
                fail(wrong_version(v, r.version))
            },
            EventView::VersionRead(Err(x)) => fail(x),
            _ => fail(out_of_order()),
        },
        StageView::Team => match e {
            EventView::TeamOfSelf(Some(t)) => (StageView::Signature, StepView::VerifyTeam(t)),
            EventView::TeamOfSelf(None) => (StageView::Ready(false), StepView::Finish(false)),
            _ => fail(out_of_order()),
        },
        StageView::Signature => match e {
            EventView::Verified(Ok(())) => (StageView::Ready(true), StepView::Finish(true)),
            EventView::Verified(Err(why)) => fail(ErrorText::BadSignature(why)),
            _ => fail(out_of_order()),
        },
    }
}

/// Where an install that stands at `stage` ends up after the findings
/// `events`, one step each.
pub open spec fn run(stage: StageView, r: ReleaseText, events: Seq<EventView>) -> StageView
    decreases events.len(),
{
    if events.len() == 0 {
        stage
    } else {
        run(advance(stage, r, events[0]).0, r, events.drop_first())
    }
}

/// A failed install stays failed, whatever it is told afterwards.
pub proof fn lemma_failed_stays_failed(r: ReleaseText, events: Seq<EventView>)
    ensures
        run(StageView::Failed, r, events) == StageView::Failed,
    decreases events.len(),
{
    if events.len() > 0 {
        lemma_failed_stays_failed(r, events.drop_first());
    }
}

/// From `stage`, a run that ends ready took a first step that did not fail.
proof fn lemma_ready_needs_progress(stage: StageView, r: ReleaseText, events: Seq<EventView>)
    requires
        run(stage, r, events) is Ready,
        !(stage is Ready),
    ensures
        events.len() > 0,
        !(advance(stage, r, events[0]).0 is Failed),
{
    if events.len() > 0 && advance(stage, r, events[0]).0 is Failed {
        lemma_failed_stays_failed(r, events.drop_first());
    }
}

/// A release the parser accepted from a source opens an install from that
/// source: its tarball is under the source's download base, so the first
/// step is fetching `SHA256SUMS`.
pub proof fn lemma_parsed_release_opens(bytes: Seq<u8>, download_base: Seq<char>)
    ensures
        release::latest_outcome(bytes, download_base) matches Ok(r) ==> opening(r, download_base) == (
        StageView::Sums,
        StepView::Download(r.sums_url),
        ),
{
    release::lemma_accepted_release_is_ours(bytes, download_base);
}

/// The tarball was checked: `SHA256SUMS` (the third finding) listed a
/// digest for it, and the tarball's bytes (the fourth) hash to exactly
/// that digest and hold the bundle alone at their top level.
pub open spec fn archive_checked(r: ReleaseText, events: Seq<EventView>) -> bool {
    &&& events[2] matches EventView::SumsRead(Ok(sums))
    &&& events[3] matches EventView::ArchiveRead(Ok(bytes))
    &&& release::expected_digest(sums, r.archive_name) == Some(archive::sha256_of_bytes(bytes))
    &&& archive::archive_top_level(bytes) == Ok::<Seq<Seq<char>>, ErrorText>(seq![BUNDLE_NAME@])
}

/// Whether the finding about the running copy's Team ID named one.
pub open spec fn team_known(e: EventView) -> bool {
    e matches EventView::TeamOfSelf(Some(_))
}

/// An install is ready to swap only after every check passed, in order:
/// both downloads succeeded, `SHA256SUMS` listed the tarball, the
/// tarball's bytes hashed to that digest and held only the bundle at their
/// top level, unpacking succeeded, the bundle's version was the release's, and — when
/// the running copy has a Team ID — the new bundle's signature was checked
/// against it.
pub proof fn lemma_ready_only_after_every_check(r: ReleaseText, events: Seq<EventView>)
    requires
        run(StageView::Sums, r, events) is Ready,
    ensures
        events.len() >= 7,
        events[0] matches EventView::Downloaded(Ok(_)),
        events[1] matches EventView::Downloaded(Ok(_)),
        archive_checked(r, events),
        events[4] matches EventView::Unpacked(Ok(_)),
        events[5] == EventView::VersionRead(Ok(r.version)),
        events[6] is TeamOfSelf,
        run(StageView::Sums, r, events) == StageView::Ready(team_known(events[6])),
        team_known(events[6]) ==> events.len() >= 8 && events[7] matches EventView::Verified(Ok(_)),
{
    let e0 = events;
    lemma_ready_needs_progress(StageView::Sums, r, e0);
    let s1 = advance(StageView::Sums, r, e0[0]).0;
    assert(s1 == StageView::Archive);
    let e1 = e0.drop_first();
    lemma_ready_needs_progress(s1, r, e1);
    let s2 = advance(s1, r, e1[0]).0;
    assert(s2 == StageView::SumsText);
    let e2 = e1.drop_first();
    lemma_ready_needs_progress(s2, r, e2);
    let s3 = advance(s2, r, e2[0]).0;
    let e3 = e2.drop_first();
    lemma_ready_needs_progress(s3, r, e3);
    let s4 = advance(s3, r, e3[0]).0;
    let e4 = e3.drop_first();
    lemma_ready_needs_progress(s4, r, e4);
    let s5 = advance(s4, r, e4[0]).0;
    let e5 = e4.drop_first();
    lemma_ready_needs_progress(s5, r, e5);
    let s6 = advance(s5, r, e5[0]).0;
    let e6 = e5.drop_first();
    assert(s6 == StageView::Team);
    lemma_ready_needs_progress(s6, r, e6);
    let s7 = advance(s6, r, e6[0]).0;
    let e7 = e6.drop_first();
    assert(e1[0] == events[1] && e2[0] == events[2] && e3[0] == events[3] && e4[0] == events[4]);
    assert(e5[0] == events[5] && e6[0] == events[6]);
    if s7 is Signature {
        lemma_ready_needs_progress(s7, r, e7);
        assert(e7[0] == events[7]);
        let s8 = advance(s7, r, e7[0]).0;
        lemma_ready_stays(s8, r, e7.drop_first());
    } else {
        lemma_ready_stays(s7, r, e7);
    }
}

/// A ready install stays ready, whatever it is told afterwards.
pub proof fn lemma_ready_stays(stage: StageView, r: ReleaseText, events: Seq<EventView>)
    requires
        stage is Ready,
    ensures
        run(stage, r, events) == stage,
    decreases events.len(),
{
    if events.len() > 0 {
        lemma_ready_stays(stage, r, events.drop_first());
    }
}

/// Whether two digests are the same bytes.
fn same_digest(a: &[u8; 32], b: &[u8; 32]) -> (r: bool)
    ensures
        r == (a@ == b@),
{
    let mut i: usize = 0;
    while i < 32
        invariant
            i <= 32,
            a@.len() == 32,
            b@.len() == 32,
            forall|k: int| 0 <= k < i ==> a@[k] == b@[k],
        decreases 32 - i,
    {
        if a[i] != b[i] {
            return false;
        }
        i += 1;
    }
    assert(a@ =~= b@);
    true
}

/// The names as character sequences.
pub open spec fn names_text(names: Seq<String>) -> Seq<Seq<char>> {
    names.map_values(|n: String| n@)
}

/// Whether the listing is exactly the bundle.
fn only_the_bundle(names: &Vec<String>) -> (r: bool)
    ensures
        r == (names_text(names@) == seq![BUNDLE_NAME@]),
{
    if names.len() != 1 {
        assert(names_text(names@).len() != 1);
        return false;
    }
    let cs = text::chars_of(names[0].as_str());
    let same = text::chars_eq_str(&cs, BUNDLE_NAME);
    assert(same ==> names_text(names@) =~= seq![BUNDLE_NAME@]);
    assert(names_text(names@)[0] == names@[0]@);
    same
}

/// The names quoted and joined by `", "`.
fn quoted_names(names: &Vec<String>) -> (s: String)
    ensures
        s@ == quoted_list(names_text(names@)),
{
    let ghost ns = names_text(names@);
    let mut s = String::new();
    let mut i: usize = 0;
    while i < names.len()
        invariant
            i <= names.len(),
            ns == names_text(names@),
            s@ == quoted_list(ns.take(i as int)),
        decreases names.len() - i,
    {
        assert(ns.take(i + 1).drop_last() =~= ns.take(i as int));
        assert(ns.take(i + 1).last() == names@[i as int]@);
        if i > 0 {
            text::push_str(&mut s, ", ");
        }
        let q = debug_text(names[i].as_str());
        text::push_str(&mut s, q.as_str());
        i += 1;
    }
    assert(ns.take(names.len() as int) =~= ns);
    s
}

/// The error for a listing that is not exactly the bundle.
fn top_level_error(names: &Vec<String>) -> (e: UpdateError)
    ensures
        e@ == bad_top_level(names_text(names@)),
{
    let mut set = text::owned("{");
    let q = quoted_names(names);
    text::push_str(&mut set, q.as_str());
    text::push_str(&mut set, "}");
    let mut m = text::owned("archive top level is ");
    text::push_str(&mut m, set.as_str());
    text::push_str(&mut m, ", expected exactly [");
    let b = debug_text(BUNDLE_NAME);
    text::push_str(&mut m, b.as_str());
    text::push_str(&mut m, "]");
    UpdateError::BadRelease(m)
}

/// The error for a bundle of the wrong version.
fn wrong_version_error(found: Version, wanted: Version) -> (e: UpdateError)
    ensures
        e@ == wrong_version(found, wanted),
{
    let mut m = text::owned("the archive contains Vitals ");
    let f = found.to_text();
    text::push_str(&mut m, f.as_str());
    text::push_str(&mut m, ", not ");
    let w = wanted.to_text();
    text::push_str(&mut m, w.as_str());
    UpdateError::BadRelease(m)
}

/// An install in progress: the release being installed and where the
/// install stands.
pub struct Install {
    release: Release,
    stage: Stage,
}

impl Install {
    /// Where the install stands.
    pub closed spec fn at(&self) -> StageView {
        self.stage@
    }

    /// The release being installed.
    pub closed spec fn installing(&self) -> ReleaseText {
        self.release@
    }

    /// Begin installing `release` from `source`: its tarball must be under
    /// the source's download base, and then `SHA256SUMS` is fetched first,
    /// so a bad tarball is never kept.
    pub fn start(source: &Source, release: Release) -> (r: (Install, Step))
        ensures
            (r.0.at(), r.1@) == opening(release@, source.download_base@),
            r.0.installing() == release@,
    {
        let url = text::chars_of(release.archive_url.as_str());
        let base = text::chars_of(source.download_base.as_str());
        if !text::starts_with_chars(&url, &base) {
            let mut m = release.archive_url.clone();
            text::push_str(&mut m, " is not under ");
            text::push_str(&mut m, source.download_base.as_str());
            return (Install { release, stage: Stage::Failed }, Step::Stop(UpdateError::BadRelease(m)));
        }
        let sums = release.sums_url.clone();
        (Install { release, stage: Stage::Sums }, Step::Download(sums))
    }

    /// Where the install stands.
    pub fn stage(&self) -> (s: Stage)
        ensures
            s@ == self.at(),
    {
        self.stage
    }

    /// Stop with `e`.
    fn fail(&mut self, e: UpdateError) -> (s: Step)
        ensures
            final(self).at() == StageView::Failed,
            final(self).installing() == old(self).installing(),
            s@ == StepView::Stop(e@),
    {
        self.stage = Stage::Failed;
        Step::Stop(e)
    }

    /// Take in what the last step found, and say what to do next.
    pub fn on_event(&mut self, e: Event) -> (s: Step)
        ensures
            (final(self).at(), s@) == advance(old(self).at(), old(self).installing(), e@),
            final(self).installing() == old(self).installing(),
    {
        let stopped = UpdateError::Io(text::owned("the install has already stopped"));
        let disorder = UpdateError::Io(text::owned("the install was told of a step out of order"));
        match self.stage {
            Stage::Failed => {
                return Step::Stop(stopped);
            },
            Stage::Ready(b) => {
                return Step::Finish(b);
            },
            Stage::Sums => match e {
                Event::Downloaded(Ok(())) => {
                    self.stage = Stage::Archive;
                    Step::Download(self.release.archive_url.clone())
                },
                Event::Downloaded(Err(x)) => self.fail(x),
                _ => self.fail(disorder),
            },
            Stage::Archive => match e {
                Event::Downloaded(Ok(())) => {
                    self.stage = Stage::SumsText;
                    Step::ReadSums
                },
                Event::Downloaded(Err(x)) => self.fail(x),
                _ => self.fail(disorder),
            },
            Stage::SumsText => match e {
                Event::SumsRead(Ok(sums)) => match release::expected_sum(
                    sums.as_str(),
                    self.release.archive_name.as_str(),
                ) {
                    Some(d) => {
                        self.stage = Stage::Hash(d);
                        Step::ReadArchive
                    },
                    None => {
                        let mut m = text::owned("SHA256SUMS has no entry for ");
                        text::push_str(&mut m, self.release.archive_name.as_str());
                        self.fail(UpdateError::BadRelease(m))
                    },
                },
                Event::SumsRead(Err(x)) => self.fail(x),
                _ => self.fail(disorder),
            },
            Stage::Hash(want) => match e {
                Event::ArchiveRead(Ok(bytes)) => {
                    let got = archive::sha256(bytes.as_slice());
                    if !same_digest(&got, &want) {
                        return self.fail(UpdateError::BadChecksum);
                    }
                    match archive::top_level(bytes.as_slice()) {
                        Err(x) => self.fail(x),
                        Ok(names) => if only_the_bundle(&names) {
                            self.stage = Stage::Unpack;
                            Step::Unpack
                        } else {
                            let err = top_level_error(&names);
                            self.fail(err)
                        },
                    }
                },
                Event::ArchiveRead(Err(x)) => self.fail(x),
                _ => self.fail(disorder),
            },
            Stage::Unpack => match e {
                Event::Unpacked(Ok(())) => {
                    self.stage = Stage::Version;
                    Step::ReadVersion
                },
                Event::Unpacked(Err(x)) => self.fail(x),
                _ => self.fail(disorder),
            },
            Stage::Version => match e {
                Event::VersionRead(Ok(v)) => if v == self.release.version {
                    self.stage = Stage::Team;
                    Step::AskTeam
                } else {
                    let err = wrong_version_error(v, self.release.version);
                    self.fail(err)
                },
                Event::VersionRead(Err(x)) => self.fail(x),
                _ => self.fail(disorder),
            },
            Stage::Team => match e {
                Event::TeamOfSelf(Some(t)) => {
                    self.stage = Stage::Signature;
                    Step::VerifyTeam(t)
                },
                Event::TeamOfSelf(None) => {
                    self.stage = Stage::Ready(false);
                    Step::Finish(false)
                },
                _ => self.fail(disorder),
            },
            Stage::Signature => match e {
                Event::Verified(Ok(())) => {
                    self.stage = Stage::Ready(true);
                    Step::Finish(true)
                },
                Event::Verified(Err(why)) => self.fail(UpdateError::BadSignature(why)),
                _ => self.fail(disorder),
            },
        }
    }
}

} // verus!
