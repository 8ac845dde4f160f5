//! The localhost HTTP face's decisions: which route a request path names,
//! which `Host` headers are local, and the JSON error body.
use crate::schema::SCHEMA_VERSION;
use crate::text;
use vstd::prelude::*;
use vstd::utf8::encode_utf8;

verus! {

/// The port the dashboard server listens on unless told otherwise.
pub const DEFAULT_PORT: u16 = 9876;

/// Where a request goes.
#[derive(Debug, PartialEq, Eq)]
pub enum Route {
    Index,
    Snapshot,
    Top,
    Pressure,
    Asset(String),
    NotFound,
}

/// `Route` with the asset path as characters.
pub enum RouteView {
    Index,
    Snapshot,
    Top,
    Pressure,
    Asset(Seq<char>),
    NotFound,
}

impl View for Route {
    type V = RouteView;

    open spec fn view(&self) -> RouteView {
        match self {
            Route::Index => RouteView::Index,
            Route::Snapshot => RouteView::Snapshot,
            Route::Top => RouteView::Top,
            Route::Pressure => RouteView::Pressure,
            Route::Asset(p) => RouteView::Asset(p@),
            Route::NotFound => RouteView::NotFound,
        }
    }
}

/// The value of `b` read as a hexadecimal digit (`char::to_digit(16)`).
pub open spec fn hex_digit(b: u8) -> Option<nat> {
    if 48 <= b <= 57 {
        Some((b - 48) as nat)
    } else if 97 <= b <= 102 {
        Some((b - 87) as nat)
    } else if 65 <= b <= 70 {
        Some((b - 55) as nat)
    } else {
        None
    }
}

/// A path the router hands the asset server never leaves the asset tree:
/// it is relative (no leading `/`), holds no `..` anywhere, and no
/// backslash.
pub proof fn lemma_assets_stay_inside(path: Seq<char>)
    ensures
        route_of(path) matches RouteView::Asset(a) ==> {
            &&& a.len() > 0 ==> a[0] != '/'
            &&& forall|j: int| !text::occurs_at(a, ".."@, j)
            &&& forall|j: int| 0 <= j < a.len() ==> a[j] != '\\'
        },
{
    let d = decoded_path(path);
    reveal_strlit("..");
    if route_of(path) is Asset {
        let a = text::trim_start_matches(d, '/');
        text::lemma_trim_start_matches_suffix(d, '/');
        let k = choose|k: int| 0 <= k <= d.len() && a == #[trigger] d.skip(k);
        text::lemma_first_at(d, '\\');
        assert forall|j: int| !text::occurs_at(a, ".."@, j) by {
            if text::occurs_at(a, ".."@, j) {
                assert(d.subrange(j + k, j + k + 2) =~= a.subrange(j, j + 2));
                text::lemma_occurrence_found(d, ".."@, 0, j + k);
            }
        }
        assert forall|j: int| 0 <= j < a.len() implies a[j] != '\\' by {
            assert(a[j] == d[j + k]);
        }
    }
}

/// `hex_digit`, computed.
fn hex_digit_exec(b: u8) -> (r: Option<u8>)
    ensures
        r matches Some(v) ==> hex_digit(b) == Some(v as nat),
        r is None ==> hex_digit(b) is None,
{
    if 48 <= b && b <= 57 {
        Some(b - 48)
    } else if 97 <= b && b <= 102 {
        Some(b - 87)
    } else if 65 <= b && b <= 70 {
        Some(b - 55)
    } else {
        None
    }
}

/// `%XX` escapes decoded, hex digits in either case; a `%` not followed by
/// two hex digits passes through.
pub open spec fn percent_decoded(b: Seq<u8>) -> Seq<u8>
    decreases b.len(),
{
    if b.len() == 0 {
        Seq::empty()
    } else if b[0] == 37 && 2 < b.len() && hex_digit(b[1]) is Some && hex_digit(b[2]) is Some {
        seq![(hex_digit(b[1])->0 * 16 + hex_digit(b[2])->0) as u8] + percent_decoded(b.skip(3))
    } else {
        seq![b[0]] + percent_decoded(b.drop_first())
    }
}

/// `percent_decoded`, computed.
fn percent_decode_bytes(bytes: &[u8]) -> (out: Vec<u8>)
    ensures
        out@ == percent_decoded(bytes@),
{
    let mut out: Vec<u8> = Vec::new();
    let mut i: usize = 0;
    assert(bytes@.skip(0) =~= bytes@);
    while i < bytes.len()
        invariant
            i <= bytes.len(),
            percent_decoded(bytes@) == out@ + percent_decoded(bytes@.skip(i as int)),
        decreases bytes.len() - i,
    {
        let ghost rest = bytes@.skip(i as int);
        if bytes[i] == 37 && 2 < bytes.len() - i {
            let hi = hex_digit_exec(bytes[i + 1]);
            let lo = hex_digit_exec(bytes[i + 2]);
            if hi.is_some() && lo.is_some() {
                let h = hi.unwrap();
                let l = lo.unwrap();
                assert(rest[1] == bytes@[i + 1] && rest[2] == bytes@[i + 2]);
                assert(rest.skip(3) =~= bytes@.skip(i + 3));
                out.push(h * 16 + l);
                i = i + 3;
                assert(percent_decoded(bytes@) == out@ + percent_decoded(bytes@.skip(i as int)));
                continue;
            }
            assert(rest[1] == bytes@[i + 1] && rest[2] == bytes@[i + 2]);
        }
        assert(rest.drop_first() =~= bytes@.skip(i + 1));
        out.push(bytes[i]);
        i = i + 1;
        assert(percent_decoded(bytes@) == out@ + percent_decoded(bytes@.skip(i as int)));
    }
    assert(bytes@.skip(i as int) =~= Seq::<u8>::empty());
    assert(out@ + Seq::<u8>::empty() =~= out@);
    out
}

/// What `String::from_utf8_lossy` makes of `b`: invalid sequences become
/// U+FFFD.
pub uninterp spec fn utf8_lossy(b: Seq<u8>) -> Seq<char>;

/// `String::from_utf8_lossy`: valid UTF-8 is decoded as it stands.
#[verifier::external_body]
fn lossy_text(b: &[u8]) -> (s: String)
    ensures
        s@ == utf8_lossy(b@),
        vstd::utf8::valid_utf8(b@) ==> s@ == vstd::utf8::decode_utf8(b@),
{
    String::from_utf8_lossy(b).into_owned()
}

/// The text of `b`: its UTF-8 decoding where it is valid UTF-8, else what
/// `String::from_utf8_lossy` makes of it.
pub open spec fn text_of_bytes(b: Seq<u8>) -> Seq<char> {
    if vstd::utf8::valid_utf8(b) {
        vstd::utf8::decode_utf8(b)
    } else {
        utf8_lossy(b)
    }
}

/// A request path with its query string removed, percent-decoded.
pub open spec fn decoded_path(path: Seq<char>) -> Seq<char> {
    text_of_bytes(percent_decoded(encode_utf8(text::split_on(path, '?')[0])))
}

/// Where a decoded request path goes: a `..` or backslash anywhere is not
/// found; `/` and `/index.html` are the index; the three API endpoints;
/// any other path under `/` names an asset, relative.
pub open spec fn route_for(d: Seq<char>) -> RouteView {
    if text::first_occurrence(d, ".."@) is Some || text::first_at(d, '\\') is Some {
        RouteView::NotFound
    } else if d == "/"@ || d == "/index.html"@ {
        RouteView::Index
    } else if d == "/api/snapshot"@ {
        RouteView::Snapshot
    } else if d == "/api/top"@ {
        RouteView::Top
    } else if d == "/api/pressure"@ {
        RouteView::Pressure
    } else if d.len() > 1 && d[0] == '/' {
        RouteView::Asset(text::trim_start_matches(d, '/'))
    } else {
        RouteView::NotFound
    }
}

/// Where a request path goes. The traversal check runs on the decoded
/// path, so `%2e%2e` in any hex case is caught like a literal `..`, and a
/// backslash anywhere is refused.
pub open spec fn route_of(path: Seq<char>) -> RouteView {
    route_for(decoded_path(path))
}

/// Where a decoded request path goes.
pub fn route_decoded(decoded: &str) -> (r: Route)
    ensures
        r@ == route_for(decoded@),
{
    let d = text::chars_of(decoded);
    let dots = text::chars_of("..");
    if text::find_chars(&d, &dots).is_some() || text::contains_char(&d, '\\') {
        return Route::NotFound;
    }
    if text::chars_eq_str(&d, "/") || text::chars_eq_str(&d, "/index.html") {
        Route::Index
    } else if text::chars_eq_str(&d, "/api/snapshot") {
        Route::Snapshot
    } else if text::chars_eq_str(&d, "/api/top") {
        Route::Top
    } else if text::chars_eq_str(&d, "/api/pressure") {
        Route::Pressure
    } else if d.len() > 1 && d[0] == '/' {
        let k = text::skip_leading(&d, '/');
        let rest = text::slice_chars(&d, k, d.len());
        assert(rest@ == d@.skip(k as int));
        Route::Asset(text::string_of(&rest))
    } else {
        Route::NotFound
    }
}

/// Where a request path goes: its query dropped, percent-decoded, routed.
pub fn route(path: &str) -> (r: Route)
    ensures
        r@ == route_of(path@),
{
    let cs = text::chars_of(path);
    let pieces = text::split_chars(&cs, '?');
    proof { text::lemma_split_on_nonempty(cs@, '?'); }
    let before_query = text::string_of(&pieces[0]);
    let decoded_bytes = percent_decode_bytes(before_query.as_str().as_bytes());
    let decoded = lossy_text(decoded_bytes.as_slice());
    route_decoded(decoded.as_str())
}

/// Empty, or `:` followed by at least one digit and nothing else.
pub open spec fn port_tail(tail: Seq<char>) -> bool {
    if tail.len() > 0 && tail[0] == ':' {
        tail.len() > 1 && text::all_digits(tail.drop_first())
    } else {
        tail.len() == 0
    }
}

/// Whether `tail` is empty or a `:port`.
pub fn is_port(tail: &Vec<char>) -> (b: bool)
    ensures
        b == port_tail(tail@),
{
    if tail.len() > 0 && tail[0] == ':' {
        let digits = text::slice_chars(tail, 1, tail.len());
        assert(digits@ =~= tail@.drop_first());
        digits.len() > 0 && text::all_digit_chars(&digits)
    } else {
        tail.len() == 0
    }
}

/// A `Host` value minus its port: `[addr]` or `[addr]:port` for a bracketed
/// IPv6 literal, else the text before a trailing `:digits`. `None` when the
/// value has some other shape.
pub open spec fn host_name(host: Seq<char>) -> Option<Seq<char>> {
    if host.len() > 0 && host[0] == '[' {
        match text::split_once(host.drop_first(), ']') {
            None => None,
            Some((addr, tail)) => if port_tail(tail) {
                Some(addr)
            } else {
                None
            },
        }
    } else {
        match text::rsplit_once(host, ':') {
            Some((name, port)) => if port_tail(seq![':'] + port) {
                Some(name)
            } else {
                None
            },
            None => Some(host),
        }
    }
}

/// Host header minus its port, handling bracketed IPv6.
pub fn strip_port(host: &Vec<char>) -> (r: Option<Vec<char>>)
    ensures
        r matches Some(n) ==> host_name(host@) == Some(n@),
        r is None ==> host_name(host@) is None,
{
    if host.len() > 0 && host[0] == '[' {
        let rest = text::slice_chars(host, 1, host.len());
        assert(rest@ =~= host@.drop_first());
        match text::split_once_chars(&rest, ']') {
            None => None,
            Some((addr, tail)) => if is_port(&tail) {
                Some(addr)
            } else {
                None
            },
        }
    } else {
        match text::rsplit_once_chars(host, ':') {
            Some((name, port)) => {
                let mut tail: Vec<char> = Vec::new();
                tail.push(':');
                let mut i: usize = 0;
                while i < port.len()
                    invariant
                        i <= port.len(),
                        tail@ == seq![':'] + port@.take(i as int),
                    decreases port.len() - i,
                {
                    tail.push(port[i]);
                    i = i + 1;
                    assert(tail@ =~= seq![':'] + port@.take(i as int));
                }
                assert(port@.take(port.len() as int) =~= port@);
                if is_port(&tail) {
                    Some(name)
                } else {
                    None
                }
            },
            None => Some(text::slice_chars(host, 0, host.len())),
        }
    }
}

/// Whether a request carrying this `Host` value (or none) is local:
/// loopback names only, with an optional port and trailing dot.
pub open spec fn loopback_host(host: Option<Seq<char>>) -> bool {
    match host {
        None => true,
        Some(h) => match host_name(h) {
            None => false,
            Some(name) => {
                let n = if name.len() > 0 && name.last() == '.' {
                    name.drop_last()
                } else {
                    name
                };
                text::lower_ascii(n) == text::lower_ascii("localhost"@) || n == "127.0.0.1"@ || n
                    == "::1"@
            },
        },
    }
}

/// The loopback decision over the `Host` header value alone.
pub fn host_is_loopback(host: Option<&str>) -> (b: bool)
    ensures
        b == loopback_host(match host {
            Some(h) => Some(h@),
            None => None,
        }),
{
    match host {
        None => true,
        Some(h) => {
            let cs = text::chars_of(h);
            match strip_port(&cs) {
                None => false,
                Some(name) => {
                    let n = if name.len() > 0 && name[name.len() - 1] == '.' {
                        text::slice_chars(&name, 0, name.len() - 1)
                    } else {
                        text::slice_chars(&name, 0, name.len())
                    };
                    assert(n@ == (if name@.len() > 0 && name@.last() == '.' {
                        name@.drop_last()
                    } else {
                        name@
                    }));
                    text::eq_ignore_ascii_case(&n, "localhost") || text::chars_eq_str(&n, "127.0.0.1")
                        || text::chars_eq_str(&n, "::1")
                },
            }
        },
    }
}

/// Whether a request's `Host` headers are local: none (HTTP/1.0 or a
/// hand-rolled client), or exactly one naming loopback. Two is what request
/// smuggling looks like, and picking either one would be a guess.
pub open spec fn hosts_local(hosts: Seq<Seq<char>>) -> bool {
    if hosts.len() == 0 {
        true
    } else if hosts.len() == 1 {
        loopback_host(Some(hosts[0]))
    } else {
        false
    }
}

/// The decision over every `Host` header a request carries, in order.
pub fn host_headers_local(hosts: &Vec<String>) -> (b: bool)
    ensures
        b == hosts_local(hosts@.map_values(|h: String| h@)),
{
    if hosts.len() == 0 {
        true
    } else if hosts.len() == 1 {
        host_is_loopback(Some(hosts[0].as_str()))
    } else {
        false
    }
}

/// How a request is answered.
#[derive(Debug, PartialEq, Eq)]
pub enum Reply {
    /// 403: the `Host` is not local.
    Rejected,
    /// 503: no sample has landed yet.
    WarmingUp,
    /// The cached snapshot.
    Snapshot,
    /// A fresh process ranking.
    Top,
    /// A verdict over the cached snapshot, without touching the baseline.
    Pressure,
    Index,
    Asset(String),
    /// 404, as JSON.
    NotFound,
}

/// `Reply` with its path as characters.
pub enum ReplyView {
    Rejected,
    WarmingUp,
    Snapshot,
    Top,
    Pressure,
    Index,
    Asset(Seq<char>),
    NotFound,
}

impl View for Reply {
    type V = ReplyView;

    open spec fn view(&self) -> ReplyView {
        match self {
            Reply::Rejected => ReplyView::Rejected,
            Reply::WarmingUp => ReplyView::WarmingUp,
            Reply::Snapshot => ReplyView::Snapshot,
            Reply::Top => ReplyView::Top,
            Reply::Pressure => ReplyView::Pressure,
            Reply::Index => ReplyView::Index,
            Reply::Asset(p) => ReplyView::Asset(p@),
            Reply::NotFound => ReplyView::NotFound,
        }
    }
}

/// How the server answers a request with these `Host` headers for `url`,
/// given whether a sample has landed: a non-local request is rejected
/// before anything else is read; the snapshot and the verdict wait for the
/// first sample.
pub open spec fn reply_of(hosts: Seq<Seq<char>>, url: Seq<char>, warm: bool) -> ReplyView {
    if !hosts_local(hosts) {
        ReplyView::Rejected
    } else {
        match route_of(url) {
            RouteView::Snapshot => if warm {
                ReplyView::Snapshot
            } else {
                ReplyView::WarmingUp
            },
            RouteView::Pressure => if warm {
                ReplyView::Pressure
            } else {
                ReplyView::WarmingUp
            },
            RouteView::Top => ReplyView::Top,
            RouteView::Index => ReplyView::Index,
            RouteView::Asset(p) => ReplyView::Asset(p),
            RouteView::NotFound => ReplyView::NotFound,
        }
    }
}

/// How to answer a request.
pub fn reply_for(hosts: &Vec<String>, url: &str, warm: bool) -> (r: Reply)
    ensures
        r@ == reply_of(hosts@.map_values(|h: String| h@), url@, warm),
{
    if !host_headers_local(hosts) {
        return Reply::Rejected;
    }
    match route(url) {
        Route::Snapshot => if warm {
            Reply::Snapshot
        } else {
            Reply::WarmingUp
        },
        Route::Pressure => if warm {
            Reply::Pressure
        } else {
            Reply::WarmingUp
        },
        Route::Top => Reply::Top,
        Route::Index => Reply::Index,
        Route::Asset(p) => Reply::Asset(p),
        Route::NotFound => Reply::NotFound,
    }
}

/// A request from a non-local `Host`, or with two of them, gets nothing but
/// the 403: no snapshot, no process table, no asset.
pub proof fn lemma_strangers_get_nothing(hosts: Seq<Seq<char>>, url: Seq<char>, warm: bool)
    requires
        !hosts_local(hosts),
    ensures
        reply_of(hosts, url, warm) == ReplyView::Rejected,
{
}

/// What is on a port.
#[derive(Debug, Clone, Copy, PartialEq, Eq, Structural)]
pub enum Probe {
    /// Nothing is listening; the port can be bound.
    Free,
    /// A vitals server, which the browser can be pointed at.
    Vitals,
    /// Something is listening, but it did not answer like vitals.
    Stranger,
}

/// What a probe of a port found: nothing to connect to, a listener that
/// took no request, or one whose reply (the bytes read of it) names a
/// `schema_version` — only vitals answers `/api/snapshot` with one.
pub open spec fn probe_of(connected: bool, sent: bool, reply: Seq<u8>) -> Probe {
    if !connected {
        Probe::Free
    } else if !sent {
        Probe::Stranger
    } else if text::first_occurrence(text_of_bytes(reply), "\"schema_version\""@) is Some {
        Probe::Vitals
    } else {
        Probe::Stranger
    }
}

/// Who holds the port, given whether a connection was made, whether the
/// request went out, and the reply read back as text.
pub fn probe_verdict_text(connected: bool, sent: bool, reply: &str) -> (p: Probe)
    ensures
        p == (if !connected {
            Probe::Free
        } else if !sent {
            Probe::Stranger
        } else if text::first_occurrence(reply@, "\"schema_version\""@) is Some {
            Probe::Vitals
        } else {
            Probe::Stranger
        }),
{
    if !connected {
        return Probe::Free;
    }
    if !sent {
        return Probe::Stranger;
    }
    let cs = text::chars_of(reply);
    let marker = text::chars_of("\"schema_version\"");
    if text::find_chars(&cs, &marker).is_some() {
        Probe::Vitals
    } else {
        Probe::Stranger
    }
}

/// Who holds the port, by what the probe found.
pub fn probe_verdict(connected: bool, sent: bool, reply: &[u8]) -> (p: Probe)
    ensures
        p == probe_of(connected, sent, reply@),
{
    let t = lossy_text(reply);
    probe_verdict_text(connected, sent, t.as_str())
}

/// `127.0.0.1:<port>`, the address the server binds and browsers open.
pub fn local_addr(port: u16) -> (a: String)
    ensures
        a@ == "127.0.0.1:"@ + text::decimal(port as nat),
{
    let mut a = text::owned("127.0.0.1:");
    text::push_decimal(&mut a, port as u64);
    a
}

/// Why `vitals dashboard` refuses a port that something else holds.
pub fn held_by_stranger(port: u16) -> (m: String)
    ensures
        m@ == "port "@ + text::decimal(port as nat)
            + " is held by something that is not vitals; stop it, or pick another port with --port"@,
{
    let mut m = text::owned("port ");
    text::push_decimal(&mut m, port as u64);
    text::push_str(&mut m, " is held by something that is not vitals; stop it, or pick another port with --port");
    m
}

/// Why the tray's dashboard cannot start on a port another program holds.
pub fn port_in_use(port: u16) -> (m: String)
    ensures
        m@ == "Port "@ + text::decimal(port as nat)
            + " is already in use by another program, so the dashboard cannot start. Quit whatever is using it, or run `vitals serve --port <other>` from a terminal."@,
{
    let mut m = text::owned("Port ");
    text::push_decimal(&mut m, port as u64);
    text::push_str(
        &mut m,
        " is already in use by another program, so the dashboard cannot start. Quit whatever is using it, or run `vitals serve --port <other>` from a terminal.",
    );
    m
}

/// Why the tray gave up waiting for its own server.
pub fn did_not_come_up(port: u16) -> (m: String)
    ensures
        m@ == "the dashboard did not come up on port "@ + text::decimal(port as nat),
{
    let mut m = text::owned("the dashboard did not come up on port ");
    text::push_decimal(&mut m, port as u64);
    m
}

/// Whether the server's sampler should be parked (`Some(true)`), unparked
/// (`Some(false)`), or left alone: only a change is made, so an idle,
/// already parked sampler is never woken.
pub fn park_change(idle: bool, parked: bool) -> (c: Option<bool>)
    ensures
        c == (if idle == parked {
            None
        } else {
            Some(idle)
        }),
{
    if idle == parked {
        None
    } else {
        Some(idle)
    }
}

/// The `Content-Type` an embedded asset is served with, by extension.
pub open spec fn content_type_of(path: Seq<char>) -> Seq<char> {
    let ext = text::after_last(path, '.');
    if ext == "html"@ {
        "text/html; charset=utf-8"@
    } else if ext == "js"@ {
        "text/javascript; charset=utf-8"@
    } else if ext == "css"@ {
        "text/css; charset=utf-8"@
    } else if ext == "svg"@ {
        "image/svg+xml"@
    } else if ext == "json"@ {
        "application/json"@
    } else if ext == "ico"@ {
        "image/x-icon"@
    } else if ext == "png"@ {
        "image/png"@
    } else if ext == "woff2"@ {
        "font/woff2"@
    } else {
        "application/octet-stream"@
    }
}

/// The `Content-Type` to serve the asset at `path` with.
pub fn content_type(path: &str) -> (t: &'static str)
    ensures
        t@ == content_type_of(path@),
{
    let cs = text::chars_of(path);
    let ext = text::after_last_chars(&cs, '.');
    if text::chars_eq_str(&ext, "html") {
        "text/html; charset=utf-8"
    } else if text::chars_eq_str(&ext, "js") {
        "text/javascript; charset=utf-8"
    } else if text::chars_eq_str(&ext, "css") {
        "text/css; charset=utf-8"
    } else if text::chars_eq_str(&ext, "svg") {
        "image/svg+xml"
    } else if text::chars_eq_str(&ext, "json") {
        "application/json"
    } else if text::chars_eq_str(&ext, "ico") {
        "image/x-icon"
    } else if text::chars_eq_str(&ext, "png") {
        "image/png"
    } else if text::chars_eq_str(&ext, "woff2") {
        "font/woff2"
    } else {
        "application/octet-stream"
    }
}

/// The lower-case hexadecimal digit of `n`, below 16.
pub open spec fn hex_lower(n: u32) -> char {
    if n < 10 {
        ('0' as u32 + n) as char
    } else {
        ('a' as u32 + n - 10) as char
    }
}

/// How `serde_json` writes `c` inside a string literal: `"` and `\` and the
/// control characters escaped (the short forms where JSON has one, else
/// `\u00xx` in lower-case hex), every other character as it is.
pub open spec fn json_escaped_char(c: char) -> Seq<char> {
    if c == '"' {
        "\\\""@
    } else if c == '\\' {
        "\\\\"@
    } else if c == '\u{8}' {
        "\\b"@
    } else if c == '\u{c}' {
        "\\f"@
    } else if c == '\n' {
        "\\n"@
    } else if c == '\r' {
        "\\r"@
    } else if c == '\t' {
        "\\t"@
    } else if (c as u32) < 0x20 {
        "\\u00"@ + seq![hex_lower((c as u32) / 16), hex_lower((c as u32) % 16)]
    } else {
        seq![c]
    }
}

/// Every character of `s` as `serde_json` writes it inside a string.
pub open spec fn json_escaped(s: Seq<char>) -> Seq<char>
    decreases s.len(),
{
    if s.len() == 0 {
        Seq::empty()
    } else {
        json_escaped_char(s[0]) + json_escaped(s.drop_first())
    }
}

/// What `serde_json::to_string` makes of a string: the JSON string literal.
pub open spec fn json_quoted(s: Seq<char>) -> Seq<char> {
    "\""@ + json_escaped(s) + "\""@
}

/// `serde_json::to_string` of a `&str`, which cannot fail: the text in
/// double quotes, escaped as `json_escaped` says.
#[verifier::external_body]
fn json_string(s: &str) -> (r: String)
    ensures
        r@ == json_quoted(s@),
{
    serde_json::to_string(s).unwrap_or_default()
}

/// `{"error":"<e>","schema_version":1}`, the message JSON-escaped and the
/// keys in the order `serde_json` writes an object's.
pub open spec fn error_json(e: Seq<char>) -> Seq<char> {
    "{\"error\":"@ + json_quoted(e) + ",\"schema_version\":"@ + text::decimal(SCHEMA_VERSION as nat)
        + "}"@
}

/// The JSON body of an error response around the message already quoted
/// as a JSON string.
pub fn error_body_quoted(quoted: &str) -> (b: String)
    ensures
        b@ == "{\"error\":"@ + quoted@ + ",\"schema_version\":"@ + text::decimal(SCHEMA_VERSION as nat)
            + "}"@,
{
    let mut b = text::owned("{\"error\":");
    text::push_str(&mut b, quoted);
    text::push_str(&mut b, ",\"schema_version\":");
    text::push_decimal(&mut b, SCHEMA_VERSION as u64);
    text::push_str(&mut b, "}");
    b
}

/// The JSON body of an error response.
pub fn error_body(e: &str) -> (b: String)
    ensures
        b@ == error_json(e@),
{
    let q = json_string(e);
    error_body_quoted(q.as_str())
}

} // verus!
