//! Version numbers, release sources, the release asset contract and the
//! errors the updater reports.
use crate::json::{self, Json};
use crate::text;
use vstd::prelude::*;

verus! {

/// The repository releases come from.
pub const REPO: &'static str = "billsun9305/vitals";

/// The checksum asset's name.
pub const SUMS_NAME: &'static str = "SHA256SUMS";

/// The version this crate is built as.
pub const PACKAGE_VERSION: &'static str = "0.1.0";

/// What `format!("{:?}", s)` prints for a string holding `s`.
pub uninterp spec fn debug_quoted(s: Seq<char>) -> Seq<char>;

/// `<str as Debug>::fmt`, through `format!`: the quoted, escaped form.
#[verifier::external_body]
pub(crate) fn debug_text(s: &str) -> (r: String)
    ensures
        r@ == debug_quoted(s@),
{
    format!("{:?}", s)
}

/// A plain `MAJOR.MINOR.PATCH` version. Field order is comparison order.
#[derive(Debug, Clone, Copy, PartialEq, Eq, PartialOrd, Ord, Hash, Structural)]
pub struct Version {
    pub major: u32,
    pub minor: u32,
    pub patch: u32,
}

/// Everything that can go wrong between "is there an update?" and "it is
/// installed".
#[derive(Debug, Clone, PartialEq, Eq)]
pub enum UpdateError {
    BadVersion(String),
    BadSource(String),
    BadRelease(String),
    Http(String),
    BadChecksum,
    BadSignature(String),
    Io(String),
}

/// `UpdateError` with its texts as character sequences.
pub enum ErrorText {
    BadVersion(Seq<char>),
    BadSource(Seq<char>),
    BadRelease(Seq<char>),
    Http(Seq<char>),
    BadChecksum,
    BadSignature(Seq<char>),
    Io(Seq<char>),
}

impl View for UpdateError {
    type V = ErrorText;

    open spec fn view(&self) -> ErrorText {
        match self {
            UpdateError::BadVersion(s) => ErrorText::BadVersion(s@),
            UpdateError::BadSource(s) => ErrorText::BadSource(s@),
            UpdateError::BadRelease(s) => ErrorText::BadRelease(s@),
            UpdateError::Http(s) => ErrorText::Http(s@),
            UpdateError::BadChecksum => ErrorText::BadChecksum,
            UpdateError::BadSignature(s) => ErrorText::BadSignature(s@),
            UpdateError::Io(s) => ErrorText::Io(s@),
        }
    }
}

/// The reason shown to the user for each error.
pub open spec fn error_message(e: ErrorText) -> Seq<char> {
    match e {
        ErrorText::BadVersion(s) => "bad version "@ + s,
        ErrorText::BadSource(s) => "update source must be http://127.0.0.1:<port>/ or http://localhost:<port>/, not "@
            + debug_quoted(s),
        ErrorText::BadRelease(s) => "bad release: "@ + s,
        ErrorText::Http(s) => s,
        ErrorText::BadChecksum => "the download's SHA-256 does not match SHA256SUMS"@,
        ErrorText::BadSignature(s) => "the update's code signature was rejected: "@ + s,
        ErrorText::Io(s) => s,
    }
}

impl UpdateError {
    /// The reason shown to the user.
    pub fn message(&self) -> (m: String)
        ensures
            m@ == error_message(self@),
    {
        match self {
            UpdateError::BadVersion(s) => {
                let mut m = text::owned("bad version ");
                text::push_str(&mut m, s.as_str());
                m
            },
            UpdateError::BadSource(s) => {
                let mut m = text::owned(
                    "update source must be http://127.0.0.1:<port>/ or http://localhost:<port>/, not ",
                );
                let q = debug_text(s.as_str());
                text::push_str(&mut m, q.as_str());
                m
            },
            UpdateError::BadRelease(s) => {
                let mut m = text::owned("bad release: ");
                text::push_str(&mut m, s.as_str());
                m
            },
            UpdateError::Http(s) => s.clone(),
            UpdateError::BadChecksum => text::owned("the download's SHA-256 does not match SHA256SUMS"),
            UpdateError::BadSignature(s) => {
                let mut m = text::owned("the update's code signature was rejected: ");
                text::push_str(&mut m, s.as_str());
                m
            },
            UpdateError::Io(s) => s.clone(),
        }
    }
}

/// `s` without one leading `v`.
pub open spec fn strip_v(t: Seq<char>) -> Seq<char> {
    if t.len() > 0 && t[0] == 'v' {
        t.drop_first()
    } else {
        t
    }
}

/// What `Version::parse` answers for the text `s`.
pub open spec fn version_outcome(s: Seq<char>) -> Result<Version, ErrorText> {
    let text = text::trim(s);
    let p = text::split_on(strip_v(text), '.');
    let q = debug_quoted(text);
    if text::parse_u32(p[0]) is None {
        Err(ErrorText::BadVersion(q + ": major is not a number"@))
    } else if p.len() < 2 {
        Err(ErrorText::BadVersion(q + ": missing minor"@))
    } else if text::parse_u32(p[1]) is None {
        Err(ErrorText::BadVersion(q + ": minor is not a number"@))
    } else if p.len() < 3 {
        Err(ErrorText::BadVersion(q + ": missing patch"@))
    } else if text::parse_u32(p[2]) is None {
        Err(ErrorText::BadVersion(q + ": patch is not a number"@))
    } else if p.len() > 3 {
        Err(ErrorText::BadVersion(q + ": more than three components"@))
    } else {
        Ok(
            Version {
                major: text::parse_u32(p[0])->0,
                minor: text::parse_u32(p[1])->0,
                patch: text::parse_u32(p[2])->0,
            },
        )
    }
}

/// A `Result` with its error viewed.
pub open spec fn viewed<T>(r: Result<T, UpdateError>) -> Result<T, ErrorText> {
    match r {
        Ok(v) => Ok(v),
        Err(e) => Err(e@),
    }
}

/// `MAJOR.MINOR.PATCH` in decimal.
pub open spec fn version_text(v: Version) -> Seq<char> {
    text::decimal(v.major as nat) + seq!['.'] + text::decimal(v.minor as nat) + seq!['.'] + text::decimal(
        v.patch as nat,
    )
}

/// A version prints and parses back: `Version::parse(v.to_string())` is `v`.
pub proof fn lemma_version_text_parses_back(v: Version)
    ensures
        version_outcome(version_text(v)) == Ok::<Version, ErrorText>(v),
{
    let a = text::decimal(v.major as nat);
    let b = text::decimal(v.minor as nat);
    let c = text::decimal(v.patch as nat);
    text::lemma_decimal_digits(v.major as nat);
    text::lemma_decimal_digits(v.minor as nat);
    text::lemma_decimal_digits(v.patch as nat);
    text::lemma_parse_decimal(v.major);
    text::lemma_parse_decimal(v.minor);
    text::lemma_parse_decimal(v.patch);
    let t = version_text(v);
    assert(t =~= a.push('.') + (b.push('.') + c));
    assert(t[0] == a[0]);
    assert(t.last() == c.last());
    assert(text::is_digit(a[0]) && text::is_digit(c[c.len() - 1]));
    text::lemma_trim_unchanged(t);
    assert(strip_v(t) == t);
    assert forall|i: int| 0 <= i < a.len() implies a[i] != '.' by {
        assert(text::is_digit(a[i]));
    }
    assert forall|i: int| 0 <= i < b.len() implies b[i] != '.' by {
        assert(text::is_digit(b[i]));
    }
    assert forall|i: int| 0 <= i < c.len() implies c[i] != '.' by {
        assert(text::is_digit(c[i]));
    }
    text::lemma_split_on_none(a, '.');
    text::lemma_split_on_none(b, '.');
    text::lemma_split_on_none(c, '.');
    text::lemma_split_on_append(a, '.', b.push('.') + c);
    text::lemma_split_on_append(b, '.', c);
    let p = text::split_on(t, '.');
    assert(p =~= seq![a, b, c]);
}

/// `a` is a later version than `b`: fields compared in order.
pub open spec fn newer(a: Version, b: Version) -> bool {
    ||| a.major > b.major
    ||| a.major == b.major && a.minor > b.minor
    ||| a.major == b.major && a.minor == b.minor && a.patch > b.patch
}

/// The version a crate version string names: its text before the first
/// `-`, parsed, or `0.0.0`.
pub open spec fn crate_version_of(s: Seq<char>) -> Version {
    match version_outcome(text::split_on(s, '-')[0]) {
        Ok(v) => v,
        Err(_) => Version { major: 0, minor: 0, patch: 0 },
    }
}

/// A `BadVersion` quoting the text and naming what is wrong.
fn bad_version(text: &Vec<char>, what: &str) -> (e: UpdateError)
    ensures
        e@ == ErrorText::BadVersion(debug_quoted(text@) + what@),
{
    let t = text::string_of(text);
    let mut m = debug_text(t.as_str());
    text::push_str(&mut m, what);
    UpdateError::BadVersion(m)
}

impl Version {
    /// `"0.2.0"` or `"v0.2.0"`, surrounding white space ignored.
    pub fn parse(s: &str) -> (r: Result<Version, UpdateError>)
        ensures
            viewed(r) == version_outcome(s@),
    {
        let cs = text::chars_of(s);
        Self::parse_chars(&cs)
    }

    /// `Version::parse` over characters.
fn parse_chars(cs: &Vec<char>) -> (r: Result<Version, UpdateError>)
        ensures
            viewed(r) == version_outcome(cs@),
    {
        let (lo, hi) = text::trim_bounds(cs);
        let text = text::slice_chars(cs, lo, hi);
        let body = if text.len() > 0 && text[0] == 'v' {
            text::slice_chars(&text, 1, text.len())
        } else {
            text::slice_chars(&text, 0, text.len())
        };
        assert(body@ == strip_v(text@));
        let p = text::split_chars(&body, '.');
        proof { text::lemma_split_on_nonempty(body@, '.'); }
        let major = text::parse_u32_chars(&p[0]);
        if major.is_none() {
            return Err(bad_version(&text, ": major is not a number"));
        }
        if p.len() < 2 {
            return Err(bad_version(&text, ": missing minor"));
        }
        let minor = text::parse_u32_chars(&p[1]);
        if minor.is_none() {
            return Err(bad_version(&text, ": minor is not a number"));
        }
        if p.len() < 3 {
            return Err(bad_version(&text, ": missing patch"));
        }
        let patch = text::parse_u32_chars(&p[2]);
        if patch.is_none() {
            return Err(bad_version(&text, ": patch is not a number"));
        }
        if p.len() > 3 {
            return Err(bad_version(&text, ": more than three components"));
        }
        Ok(Version { major: major.unwrap(), minor: minor.unwrap(), patch: patch.unwrap() })
    }

    /// The `MAJOR.MINOR.PATCH` prefix of a crate version, any `-suffix`
    /// ignored; `0.0.0` when even that does not parse. Never panics.
    pub fn from_crate_version(s: &str) -> (v: Version)
        ensures
            v == crate_version_of(s@),
    {
        let cs = text::chars_of(s);
        let pieces = text::split_chars(&cs, '-');
        proof { text::lemma_split_on_nonempty(cs@, '-'); }
        match Self::parse_chars(&pieces[0]) {
            Ok(v) => v,
            Err(_) => Version { major: 0, minor: 0, patch: 0 },
        }
    }

    /// The version this library was built as.
    pub fn current() -> (v: Version)
        ensures
            v == crate_version_of(PACKAGE_VERSION@),
    {
        Version::from_crate_version(PACKAGE_VERSION)
    }

    /// `MAJOR.MINOR.PATCH`, the form `Display` prints.
    pub fn to_text(&self) -> (s: String)
        ensures
            s@ == version_text(*self),
    {
        let mut s = text::decimal_string(self.major as u64);
        text::push_char(&mut s, '.');
        text::push_decimal(&mut s, self.minor as u64);
        text::push_char(&mut s, '.');
        text::push_decimal(&mut s, self.patch as u64);
        s
    }

    /// Whether `self` is a later version than `other`.
    pub fn is_newer_than(&self, other: &Version) -> (b: bool)
        ensures
            b == newer(*self, *other),
    {
        self.major > other.major || (self.major == other.major && self.minor > other.minor) || (
        self.major == other.major && self.minor == other.minor && self.patch > other.patch)
    }
}


/// Where releases are looked up and downloaded from.
#[derive(Debug, Clone, PartialEq, Eq)]
pub struct Source {
    /// The `releases/latest` endpoint.
    pub api_latest: String,
    /// The prefix every accepted asset URL must start with.
    pub download_base: String,
}

/// A loopback base URL's two addresses, or `None` when the URL is not
/// exactly `http://127.0.0.1:<port>/` or `http://localhost:<port>/`.
pub open spec fn loopback_source(url: Seq<char>) -> Option<(Seq<char>, Seq<char>)> {
    let scheme = "http://"@;
    if !text::starts_with(url, scheme) {
        None
    } else {
        match text::split_once(url.skip(scheme.len() as int), '/') {
            None => None,
            Some((host_port, path)) => match text::split_once(host_port, ':') {
                None => None,
                Some((host, port)) => {
                    let local = host == "127.0.0.1"@ || host == "localhost"@;
                    let numeric = port.len() > 0 && text::all_digits(port);
                    if local && numeric && path.len() == 0 {
                        Some((url + "releases/latest"@, url))
                    } else {
                        None
                    }
                },
            },
        }
    }
}

impl Source {
    /// The GitHub repository's release endpoints.
    pub fn github() -> (s: Source)
        ensures
            s.api_latest@ == "https://api.github.com/repos/"@ + REPO@ + "/releases/latest"@,
            s.download_base@ == "https://github.com/"@ + REPO@ + "/releases/download/"@,
    {
        let mut api_latest = text::owned("https://api.github.com/repos/");
        text::push_str(&mut api_latest, REPO);
        text::push_str(&mut api_latest, "/releases/latest");
        let mut download_base = text::owned("https://github.com/");
        text::push_str(&mut download_base, REPO);
        text::push_str(&mut download_base, "/releases/download/");
        Source { api_latest, download_base }
    }

    /// Accepts exactly `http://127.0.0.1:<port>/` or `http://localhost:<port>/`.
    pub fn loopback(url: &str) -> (r: Result<Source, UpdateError>)
        ensures
            r matches Ok(s) ==> loopback_source(url@) == Some((s.api_latest@, s.download_base@)),
            r matches Err(e) ==> loopback_source(url@) is None && e@ == ErrorText::BadSource(url@),
    {
        let u = text::chars_of(url);
        let scheme = text::chars_of("http://");
        if !text::starts_with_chars(&u, &scheme) {
            return Err(UpdateError::BadSource(text::owned(url)));
        }
        let rest = text::slice_chars(&u, scheme.len(), u.len());
        assert(rest@ == u@.skip(scheme@.len() as int));
        let (host_port, path) = match text::split_once_chars(&rest, '/') {
            Some(p) => p,
            None => {
                return Err(UpdateError::BadSource(text::owned(url)));
            },
        };
        let (host, port) = match text::split_once_chars(&host_port, ':') {
            Some(p) => p,
            None => {
                return Err(UpdateError::BadSource(text::owned(url)));
            },
        };
        let local = text::chars_eq_str(&host, "127.0.0.1") || text::chars_eq_str(&host, "localhost");
        let numeric = port.len() > 0 && text::all_digit_chars(&port);
        if !local || !numeric || path.len() != 0 {
            return Err(UpdateError::BadSource(text::owned(url)));
        }
        let mut api_latest = text::owned(url);
        text::push_str(&mut api_latest, "releases/latest");
        Ok(Source { api_latest, download_base: text::owned(url) })
    }
}

/// `Vitals-<version>-arm64.tar.gz`.
pub open spec fn archive_name_text(v: Version) -> Seq<char> {
    "Vitals-"@ + version_text(v) + "-arm64.tar.gz"@
}

/// The tarball's name for a version, per the asset contract.
pub fn archive_name(version: Version) -> (s: String)
    ensures
        s@ == archive_name_text(version),
{
    let mut s = text::owned("Vitals-");
    let v = version.to_text();
    text::push_str(&mut s, v.as_str());
    text::push_str(&mut s, "-arm64.tar.gz");
    s
}

/// One well-formed `SHA256SUMS` line as `(lower-case digest, file name)`:
/// 64 hex digits, white space, then a name, any `*` binary markers before it
/// dropped.
pub open spec fn sum_entry(line: Seq<char>) -> Option<(Seq<char>, Seq<char>)> {
    match text::split_once_space(text::trim(line)) {
        None => None,
        Some((hex, rest)) => {
            let name = text::trim_start_matches(text::trim_start(rest), '*');
            if hex.len() == 64 && (forall|i: int| 0 <= i < 64 ==> text::is_hex(#[trigger] hex[i]))
                && name.len() > 0 {
                Some((hex.map_values(|c: char| text::ascii_lower(c)), name))
            } else {
                None
            }
        },
    }
}

/// Every well-formed line among `lines`, in order.
pub open spec fn sum_entries(lines: Seq<Seq<char>>) -> Seq<(Seq<char>, Seq<char>)>
    decreases lines.len(),
{
    if lines.len() == 0 {
        Seq::empty()
    } else {
        let r = sum_entries(lines.drop_last());
        match sum_entry(lines.last()) {
            Some(e) => r.push(e),
            None => r,
        }
    }
}

/// The entries of a `SHA256SUMS` text.
pub open spec fn sums_of(t: Seq<char>) -> Seq<(Seq<char>, Seq<char>)> {
    sum_entries(text::text_lines(t))
}

/// `sum_entry` over one line.
fn parse_sum_line(line: &Vec<char>) -> (r: Option<(Vec<char>, Vec<char>)>)
    ensures
        r matches Some(e) ==> sum_entry(line@) == Some((e.0@, e.1@)),
        r is None ==> sum_entry(line@) is None,
{
    let (lo, hi) = text::trim_bounds(line);
    let t = text::slice_chars(line, lo, hi);
    let (hex, rest) = match text::split_once_space_chars(&t) {
        Some(p) => p,
        None => {
            return None;
        },
    };
    let (rlo, rhi) = text::trim_bounds(&rest);
    let k0 = rlo;
    let after_space = text::slice_chars(&rest, k0, rest.len());
    let k = text::skip_leading(&after_space, '*');
    let name = text::slice_chars(&after_space, k, after_space.len());
    assert(name@ == after_space@.skip(k as int));
    if hex.len() != 64 || name.len() == 0 {
        return None;
    }
    let mut lower: Vec<char> = Vec::new();
    let mut i: usize = 0;
    while i < 64
        invariant
            text::split_once_space(text::trim(line@)) == Some((hex@, rest@)),
            name@ == text::trim_start_matches(text::trim_start(rest@), '*'),
            name.len() > 0,
            hex.len() == 64,
            i <= 64,
            lower.len() == i,
            forall|j: int| 0 <= j < i ==> text::is_hex(#[trigger] hex@[j]),
            forall|j: int| 0 <= j < i ==> #[trigger] lower@[j] == text::ascii_lower(hex@[j]),
        decreases 64 - i,
    {
        let c = hex[i];
        if !(('0' <= c && c <= '9') || ('a' <= c && c <= 'f') || ('A' <= c && c <= 'F')) {
            assert(!text::is_hex(hex@[i as int]));
            assert(!(forall|j: int| 0 <= j < 64 ==> text::is_hex(#[trigger] hex@[j])));
            return None;
        }
        lower.push(text::to_ascii_lower(c));
        i = i + 1;
    }
    assert(lower@ =~= hex@.map_values(|c: char| text::ascii_lower(c)));
    Some((lower, name))
}

/// Every well-formed line of a `SHA256SUMS` file as `(hex digest, file
/// name)`, digests lower-cased.
pub fn parse_sums(sums: &str) -> (r: Vec<(String, String)>)
    ensures
        r.len() == sums_of(sums@).len(),
        forall|i: int| 0 <= i < r.len() ==> (#[trigger] r[i]).0@ == sums_of(sums@)[i].0 && r[i].1@
            == sums_of(sums@)[i].1,
{
    let cs = text::chars_of(sums);
    let lines = text::lines_of(&cs);
    let ghost ls = text::text_lines(cs@);
    let mut r: Vec<(String, String)> = Vec::new();
    let mut i: usize = 0;
    while i < lines.len()
        invariant
            lines.len() == ls.len(),
            forall|k: int| 0 <= k < lines.len() ==> #[trigger] lines[k]@ == ls[k],
            i <= lines.len(),
            r.len() == sum_entries(ls.take(i as int)).len(),
            forall|k: int| 0 <= k < r.len() ==> (#[trigger] r[k]).0@ == sum_entries(ls.take(i as int))[k].0
                && r[k].1@ == sum_entries(ls.take(i as int))[k].1,
        decreases lines.len() - i,
    {
        assert(ls.take(i + 1).drop_last() =~= ls.take(i as int));
        assert(ls.take(i + 1).last() == lines[i as int]@);
        match parse_sum_line(&lines[i]) {
            Some((hex, name)) => {
                r.push((text::string_of(&hex), text::string_of(&name)));
            },
            None => {},
        }
        i = i + 1;
    }
    assert(ls.take(lines.len() as int) =~= ls);
    r
}

/// The position of the first entry for `name`.
pub open spec fn entry_for(es: Seq<(Seq<char>, Seq<char>)>, name: Seq<char>) -> Option<nat>
    decreases es.len(),
{
    if es.len() == 0 {
        None
    } else if es[0].1 == name {
        Some(0)
    } else {
        match entry_for(es.drop_first(), name) {
            Some(k) => Some(k + 1),
            None => None,
        }
    }
}

/// The 32 bytes a 64-digit hex string spells.
pub open spec fn hex_bytes(hex: Seq<char>) -> Seq<u8> {
    Seq::new(32, |k: int| (text::hex_value(hex[2 * k]) * 16 + text::hex_value(hex[2 * k + 1])) as u8)
}

/// The digest `SHA256SUMS` records for `name`.
pub open spec fn expected_digest(sums: Seq<char>, name: Seq<char>) -> Option<Seq<u8>> {
    match entry_for(sums_of(sums), name) {
        Some(i) => Some(hex_bytes(sums_of(sums)[i as int].0)),
        None => None,
    }
}

/// `entry_for` is the first entry named `name`.
proof fn lemma_entry_for_is(es: Seq<(Seq<char>, Seq<char>)>, name: Seq<char>, i: int)
    requires
        0 <= i <= es.len(),
        forall|j: int| 0 <= j < i ==> (#[trigger] es[j]).1 != name,
        i < es.len() ==> es[i].1 == name,
    ensures
        i < es.len() ==> entry_for(es, name) == Some(i as nat),
        i == es.len() ==> entry_for(es, name) is None,
    decreases i,
{
    if i > 0 {
        assert forall|j: int| 0 <= j < i - 1 implies (#[trigger] es.drop_first()[j]).1 != name by {
            assert(es.drop_first()[j] == es[j + 1]);
        }
        if i < es.len() {
            assert(es.drop_first()[i - 1] == es[i]);
        }
        lemma_entry_for_is(es.drop_first(), name, i - 1);
    }
}

/// A well-formed line's digest is 64 hex digits.
proof fn lemma_sum_entry_is_hex(line: Seq<char>)
    requires
        sum_entry(line) is Some,
    ensures
        (sum_entry(line)->0).0.len() == 64,
        forall|i: int| 0 <= i < 64 ==> text::is_hex(#[trigger] (sum_entry(line)->0).0[i]),
{
    let (hex, rest) = text::split_once_space(text::trim(line))->0;
    assert forall|i: int| 0 <= i < 64 implies text::is_hex(#[trigger] (sum_entry(line)->0).0[i]) by {
        assert(text::is_hex(hex[i]));
    }
}

/// Every entry's digest is 64 hex digits.
proof fn lemma_sum_entries_hex(lines: Seq<Seq<char>>)
    ensures
        forall|k: int| 0 <= k < sum_entries(lines).len() ==> (#[trigger] sum_entries(lines)[k]).0.len()
            == 64 && forall|i: int| 0 <= i < 64 ==> text::is_hex(#[trigger] sum_entries(lines)[k].0[i]),
    decreases lines.len(),
{
    if lines.len() > 0 {
        lemma_sum_entries_hex(lines.drop_last());
        let r = sum_entries(lines.drop_last());
        if sum_entry(lines.last()) is Some {
            lemma_sum_entry_is_hex(lines.last());
            let e = sum_entry(lines.last())->0;
            assert forall|k: int| 0 <= k < sum_entries(lines).len() implies (#[trigger] sum_entries(lines)[k]).0.len()
                == 64 && forall|i: int| 0 <= i < 64 ==> text::is_hex(#[trigger] sum_entries(lines)[k].0[i]) by {
                if k < r.len() {
                    assert(sum_entries(lines)[k] == r[k]);
                } else {
                    assert(sum_entries(lines)[k] == e);
                }
            }
        }
    }
}

/// The digest `SHA256SUMS` records for `name`, as bytes.
pub fn expected_sum(sums: &str, name: &str) -> (r: Option<[u8; 32]>)
    ensures
        r matches Some(a) ==> expected_digest(sums@, name@) == Some(a@),
        r is None ==> expected_digest(sums@, name@) is None,
{
    let es = parse_sums(sums);
    let ghost spec_es = sums_of(sums@);
    let wanted = text::chars_of(name);
    let mut i: usize = 0;
    while i < es.len()
        invariant
            es.len() == spec_es.len(),
            forall|k: int| 0 <= k < es.len() ==> (#[trigger] es[k]).0@ == spec_es[k].0 && es[k].1@
                == spec_es[k].1,
            wanted@ == name@,
            spec_es == sums_of(sums@),
            i <= es.len(),
            forall|j: int| 0 <= j < i ==> (#[trigger] spec_es[j]).1 != name@,
        decreases es.len() - i,
    {
        let entry_name = text::chars_of(es[i].1.as_str());
        if text::chars_eq(&entry_name, &wanted) {
            proof {
                lemma_entry_for_is(spec_es, name@, i as int);
                lemma_sum_entries_hex(text::text_lines(sums@));
                assert(spec_es[i as int].0.len() == 64);
            }
            let hex = text::chars_of(es[i].0.as_str());
            let mut out = [0u8; 32];
            let mut k: usize = 0;
            while k < 32
                invariant
                    hex@ == spec_es[i as int].0,
                    hex.len() == 64,
                    forall|j: int| 0 <= j < 64 ==> text::is_hex(#[trigger] hex@[j]),
                    k <= 32,
                    forall|j: int| 0 <= j < k ==> #[trigger] out@[j] == hex_bytes(hex@)[j],
                decreases 32 - k,
            {
                let hi = text::hex_digit_value(hex[2 * k]);
                let lo = text::hex_digit_value(hex[2 * k + 1]);
                out[k] = hi * 16 + lo;
                k = k + 1;
            }
            assert(out@ =~= hex_bytes(hex@));
            return Some(out);
        }
        i = i + 1;
    }
    proof { lemma_entry_for_is(spec_es, name@, i as int); }
    None
}


/// One published release, as much of it as the updater needs.
#[derive(Debug, Clone, PartialEq, Eq)]
pub struct Release {
    pub version: Version,
    /// The release body, Markdown as GitHub stores it.
    pub notes: String,
    /// The release page, for *View Release*.
    pub page_url: String,
    pub archive_url: String,
    pub sums_url: String,
    /// `Vitals-<version>-arm64.tar.gz`, the name looked up in `SHA256SUMS`.
    pub archive_name: String,
}

/// `Release` with its texts as character sequences.
pub struct ReleaseText {
    pub version: Version,
    pub notes: Seq<char>,
    pub page_url: Seq<char>,
    pub archive_url: Seq<char>,
    pub sums_url: Seq<char>,
    pub archive_name: Seq<char>,
}

impl View for Release {
    type V = ReleaseText;

    open spec fn view(&self) -> ReleaseText {
        ReleaseText {
            version: self.version,
            notes: self.notes@,
            page_url: self.page_url@,
            archive_url: self.archive_url@,
            sums_url: self.sums_url@,
            archive_name: self.archive_name@,
        }
    }
}

/// The position of the first asset whose `name` is `name`.
pub open spec fn asset_named(assets: Seq<Json>, name: Seq<char>) -> Option<nat>
    decreases assets.len(),
{
    if assets.len() == 0 {
        None
    } else if json::str_of(json::field(assets[0], "name"@)) == Some(name) {
        Some(0)
    } else {
        match asset_named(assets.drop_first(), name) {
            Some(k) => Some(k + 1),
            None => None,
        }
    }
}

/// The download URL of the asset called `name`, provided it lies under
/// `base` and ends with the asset's own name; else the reason it is refused.
pub open spec fn asset_url_of(assets: Seq<Json>, name: Seq<char>, base: Seq<char>) -> Result<
    Seq<char>,
    Seq<char>,
> {
    match asset_named(assets, name) {
        None => Err("release has no asset named "@ + name),
        Some(i) => match json::str_of(json::field(assets[i as int], "browser_download_url"@)) {
            None => Err("asset "@ + name + " has no browser_download_url"@),
            Some(url) => if text::starts_with(url, base) && text::after_last(url, '/') == name {
                Ok(url)
            } else {
                Err("asset "@ + name + " is served from "@ + url + ", not from under "@ + base)
            },
        },
    }
}

/// The release page GitHub would show for `v` when the response names none.
pub open spec fn default_page(v: Version) -> Seq<char> {
    "https://github.com/"@ + REPO@ + "/releases/tag/v"@ + version_text(v)
}

/// What a `releases/latest` document `v` makes of a release whose assets
/// must be served from under `base`.
pub open spec fn release_of(v: Json, base: Seq<char>) -> Result<ReleaseText, ErrorText> {
    if json::is_true(json::field(v, "draft"@)) {
        Err(ErrorText::BadRelease("latest release is a draft"@))
    } else if json::is_true(json::field(v, "prerelease"@)) {
        Err(ErrorText::BadRelease("latest release is a pre-release"@))
    } else {
        match json::str_of(json::field(v, "tag_name"@)) {
            None => Err(ErrorText::BadRelease("no tag_name"@)),
            Some(tag) => match version_outcome(tag) {
                Err(e) => Err(ErrorText::BadRelease("tag_name: "@ + error_message(e))),
                Ok(ver) => match json::field(v, "assets"@) {
                    Json::Array(a) => {
                        let name = archive_name_text(ver);
                        match asset_url_of(a@, name, base) {
                            Err(m) => Err(ErrorText::BadRelease(m)),
                            Ok(archive_url) => match asset_url_of(a@, SUMS_NAME@, base) {
                                Err(m) => Err(ErrorText::BadRelease(m)),
                                Ok(sums_url) => Ok(
                                    ReleaseText {
                                        version: ver,
                                        notes: match json::str_of(json::field(v, "body"@)) {
                                            Some(b) => b,
                                            None => Seq::empty(),
                                        },
                                        page_url: match json::str_of(
                                            json::field(v, "html_url"@),
                                        ) {
                                            Some(u) => u,
                                            None => default_page(ver),
                                        },
                                        archive_url,
                                        sums_url,
                                        archive_name: name,
                                    },
                                ),
                            },
                        }
                    },
                    _ => Err(ErrorText::BadRelease("no assets"@)),
                },
            },
        }
    }
}

/// What `parse_latest` answers for a `releases/latest` response whose
/// assets must be served from under `base`.
pub open spec fn latest_outcome(bytes: Seq<u8>, base: Seq<char>) -> Result<ReleaseText, ErrorText> {
    match json::json_parse(bytes) {
        Err(e) => Err(ErrorText::BadRelease("not JSON: "@ + e)),
        Ok(v) => release_of(v, base),
    }
}

/// A release the parser accepts is one the updater can trust the location
/// of: it is neither a draft nor a pre-release, its tarball and
/// `SHA256SUMS` are served from under `base` with the asset's own name as
/// the URL's last segment, and the tarball is the one named for its version.
pub proof fn lemma_accepted_release_is_ours(bytes: Seq<u8>, base: Seq<char>)
    ensures
        latest_outcome(bytes, base) matches Ok(r) ==> {
            &&& json::json_parse(bytes) matches Ok(v) && !json::is_true(json::field(v, "draft"@))
                && !json::is_true(json::field(v, "prerelease"@))
            &&& r.archive_name == archive_name_text(r.version)
            &&& text::starts_with(r.archive_url, base)
            &&& text::after_last(r.archive_url, '/') == r.archive_name
            &&& text::starts_with(r.sums_url, base)
            &&& text::after_last(r.sums_url, '/') == SUMS_NAME@
        },
{
}

/// `newer` is a strict total order on versions.
pub proof fn lemma_newer_orders_versions(a: Version, b: Version, c: Version)
    ensures
        !newer(a, a),
        newer(a, b) ==> !newer(b, a),
        newer(a, b) && newer(b, c) ==> newer(a, c),
        a != b ==> newer(a, b) || newer(b, a),
{
}

/// The major number decides first, then the minor, then the patch:
/// a higher major is newer whatever the rest, a lower major never is; with
/// equal majors the same holds of the minor; with both equal, the patch
/// alone decides.
pub proof fn lemma_newer_major_then_minor_then_patch(a: Version, b: Version)
    ensures
        a.major > b.major ==> newer(a, b),
        a.major < b.major ==> !newer(a, b),
        a.major == b.major && a.minor > b.minor ==> newer(a, b),
        a.major == b.major && a.minor < b.minor ==> !newer(a, b),
        a.major == b.major && a.minor == b.minor ==> (newer(a, b) <==> a.patch > b.patch),
{
}

/// A version as one number: the major above the minor above the patch,
/// each in its own 32 bits.
pub open spec fn version_number(v: Version) -> int {
    v.major * 0x1_0000_0000_0000_0000 + v.minor * 0x1_0000_0000 + v.patch
}

/// Being newer is having the larger number when the three fields are read
/// as the digits of one number, major first.
pub proof fn lemma_newer_is_larger_number(a: Version, b: Version)
    ensures
        newer(a, b) <==> version_number(a) > version_number(b),
{
}

/// `asset_named` is the first asset named `name`.
proof fn lemma_asset_named_is(assets: Seq<Json>, name: Seq<char>, i: int)
    requires
        0 <= i <= assets.len(),
        forall|j: int| 0 <= j < i ==> json::str_of(json::field(#[trigger] assets[j], "name"@)) != Some(name),
        i < assets.len() ==> json::str_of(json::field(assets[i], "name"@)) == Some(name),
    ensures
        i < assets.len() ==> asset_named(assets, name) == Some(i as nat),
        i == assets.len() ==> asset_named(assets, name) is None,
    decreases i,
{
    if i > 0 {
        assert forall|j: int| 0 <= j < i - 1 implies json::str_of(json::field(#[trigger] assets.drop_first()[j], "name"@)) != Some(name) by {
            assert(assets.drop_first()[j] == assets[j + 1]);
        }
        if i < assets.len() {
            assert(assets.drop_first()[i - 1] == assets[i]);
        }
        lemma_asset_named_is(assets.drop_first(), name, i - 1);
    }
}

/// The message of a refusal.
pub open spec fn refusal(r: Result<Seq<char>, Seq<char>>) -> Seq<char> {
    match r {
        Ok(_) => Seq::empty(),
        Err(m) => m,
    }
}

/// The URL of the asset called `name`, from under `base` only.
fn asset_url(assets: &Vec<Json>, name: &str, base: &str) -> (r: Result<String, UpdateError>)
    ensures
        match r {
            Ok(u) => asset_url_of(assets@, name@, base@) == Ok::<Seq<char>, Seq<char>>(u@),
            Err(e) => asset_url_of(assets@, name@, base@) is Err && e@ == ErrorText::BadRelease(
                refusal(asset_url_of(assets@, name@, base@)),
            ),
        },
{
    let mut i: usize = 0;
    while i < assets.len()
        invariant
            i <= assets.len(),
            forall|j: int| 0 <= j < i ==> json::str_of(json::field(#[trigger] assets@[j], "name"@)) != Some(name@),
        decreases assets.len() - i,
    {
        let n = json::as_str(json::get_field(&assets[i], "name"));
        let matches = match n {
            Some(s) => {
                let sc = text::chars_of(s.as_str());
                text::chars_eq_str(&sc, name)
            },
            None => false,
        };
        if matches {
            proof { lemma_asset_named_is(assets@, name@, i as int); }
            let url = match json::as_str(json::get_field(&assets[i], "browser_download_url")) {
                Some(u) => u,
                None => {
                    let mut m = text::owned("asset ");
                    text::push_str(&mut m, name);
                    text::push_str(&mut m, " has no browser_download_url");
                    return Err(UpdateError::BadRelease(m));
                },
            };
            let uc = text::chars_of(url.as_str());
            let bc = text::chars_of(base);
            let under_prefix = text::starts_with_chars(&uc, &bc);
            let last = text::after_last_chars(&uc, '/');
            let named_right = text::chars_eq_str(&last, name);
            if !under_prefix || !named_right {
                let mut m = text::owned("asset ");
                text::push_str(&mut m, name);
                text::push_str(&mut m, " is served from ");
                text::push_str(&mut m, url.as_str());
                text::push_str(&mut m, ", not from under ");
                text::push_str(&mut m, base);
                return Err(UpdateError::BadRelease(m));
            }
            return Ok(url.clone());
        }
        i = i + 1;
    }
    proof { lemma_asset_named_is(assets@, name@, i as int); }
    let mut m = text::owned("release has no asset named ");
    text::push_str(&mut m, name);
    Err(UpdateError::BadRelease(m))
}

/// The release a parsed `releases/latest` document describes. Drafts and
/// pre-releases are refused, both assets are required by name, and each
/// asset URL must lie under `source.download_base` and end with the asset's
/// own name.
pub fn release_from_json(v: &Json, source: &Source) -> (r: Result<Release, UpdateError>)
    ensures
        match r {
            Ok(rel) => release_of(*v, source.download_base@) == Ok::<ReleaseText, ErrorText>(rel@),
            Err(e) => release_of(*v, source.download_base@) == Err::<ReleaseText, ErrorText>(e@),
        },
{
    if json::is_true_value(json::get_field(v, "draft")) {
        return Err(UpdateError::BadRelease(text::owned("latest release is a draft")));
    }
    if json::is_true_value(json::get_field(v, "prerelease")) {
        return Err(UpdateError::BadRelease(text::owned("latest release is a pre-release")));
    }
    let tag = match json::as_str(json::get_field(v, "tag_name")) {
        Some(t) => t,
        None => {
            return Err(UpdateError::BadRelease(text::owned("no tag_name")));
        },
    };
    let version = match Version::parse(tag.as_str()) {
        Ok(ver) => ver,
        Err(e) => {
            let mut m = text::owned("tag_name: ");
            let reason = e.message();
            text::push_str(&mut m, reason.as_str());
            return Err(UpdateError::BadRelease(m));
        },
    };
    let assets = match json::get_field(v, "assets") {
        Json::Array(a) => a,
        _ => {
            return Err(UpdateError::BadRelease(text::owned("no assets")));
        },
    };
    let name = archive_name(version);
    let archive_url = match asset_url(assets, name.as_str(), source.download_base.as_str()) {
        Ok(u) => u,
        Err(e) => {
            return Err(e);
        },
    };
    let sums_url = match asset_url(assets, SUMS_NAME, source.download_base.as_str()) {
        Ok(u) => u,
        Err(e) => {
            return Err(e);
        },
    };
    let page_url = match json::as_str(json::get_field(v, "html_url")) {
        Some(u) => u.clone(),
        None => {
            let mut p = text::owned("https://github.com/");
            text::push_str(&mut p, REPO);
            text::push_str(&mut p, "/releases/tag/v");
            let vt = version.to_text();
            text::push_str(&mut p, vt.as_str());
            p
        },
    };
    let notes = match json::as_str(json::get_field(v, "body")) {
        Some(b) => b.clone(),
        None => String::new(),
    };
    Ok(Release { version, notes, page_url, archive_url, sums_url, archive_name: name })
}

/// Read GitHub's `releases/latest` response: parse it as JSON, then read
/// the release it describes.
pub fn parse_latest(json_bytes: &[u8], source: &Source) -> (r: Result<Release, UpdateError>)
    ensures
        match r {
            Ok(rel) => latest_outcome(json_bytes@, source.download_base@) == Ok::<ReleaseText, ErrorText>(rel@),
            Err(e) => latest_outcome(json_bytes@, source.download_base@) == Err::<ReleaseText, ErrorText>(e@),
        },
{
    match json::parse_json(json_bytes) {
        Ok(v) => release_from_json(&v, source),
        Err(e) => {
            let mut m = text::owned("not JSON: ");
            text::push_str(&mut m, e.as_str());
            Err(UpdateError::BadRelease(m))
        },
    }
}

} // verus!
