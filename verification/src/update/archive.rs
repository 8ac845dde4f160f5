//! What the install asks of the downloaded tarball's bytes: their SHA-256,
//! and the names at its top level. Hashing is `sha2`'s and reading the
//! gzip/tar stream is `flate2`'s and `tar`'s; which names count, and in
//! what order they are reported, is this module's.
use crate::text;
use crate::update::release::{ErrorText, UpdateError};
use vstd::prelude::*;

verus! {

/// The SHA-256 digest of `data`.
pub uninterp spec fn sha256_of_bytes(data: Seq<u8>) -> Seq<u8>;

/// `Sha256::digest` of the bytes.
#[verifier::external_body]
pub(crate) fn sha256(data: &[u8]) -> (d: [u8; 32])
    ensures
        d@ == sha256_of_bytes(data@),
{
    <sha2::Sha256 as sha2::Digest>::digest(data).into()
}

/// What `tar` reads from the gzip-compressed tarball `archive`: the path of
/// each entry, in order and as text (`to_string_lossy`), up to the first
/// error; and that error's text, if reading stopped at one.
pub uninterp spec fn tar_gz_entries(archive: Seq<u8>) -> (Seq<Seq<char>>, Option<Seq<char>>);

/// The entry paths `tar::Archive::entries` yields through a
/// `flate2::read::GzDecoder` over the bytes, up to the first error.
#[verifier::external_body]
pub(crate) fn entry_paths(archive: &[u8]) -> (r: (Vec<String>, Option<String>))
    ensures
        (r.0@.map_values(|p: String| p@), text::opt_text(r.1)) == tar_gz_entries(archive@),
{
    let mut paths = Vec::new();
    let mut listing = tar::Archive::new(flate2::read::GzDecoder::new(archive));
    let entries = match listing.entries() {
        Ok(entries) => entries,
        Err(e) => return (paths, Some(e.to_string())),
    };
    for entry in entries {
        match entry.and_then(|e| e.path().map(|p| p.to_string_lossy().into_owned())) {
            Ok(p) => paths.push(p),
            Err(e) => return (paths, Some(e.to_string())),
        }
    }
    (paths, None)
}

/// Whether a `/`-separated piece of a path is a name: `Path::components`
/// drops empty pieces and `.`, and reads `..` as the parent.
pub open spec fn is_name(piece: Seq<char>) -> bool {
    piece != Seq::<char>::empty() && piece != "."@ && piece != ".."@
}

/// The first of `pieces` that is a name.
pub open spec fn first_named(pieces: Seq<Seq<char>>) -> Option<Seq<char>>
    decreases pieces.len(),
{
    if pieces.len() == 0 {
        None
    } else if is_name(pieces[0]) {
        Some(pieces[0])
    } else {
        first_named(pieces.drop_first())
    }
}

/// The first normal component of `path`, `None` for a path with no name.
pub open spec fn first_name(path: Seq<char>) -> Option<Seq<char>> {
    first_named(text::split_on(path, '/'))
}

/// Whether `a` sorts before `b`, character by character, a prefix first:
/// the order of `String`s.
pub open spec fn sorts_before(a: Seq<char>, b: Seq<char>) -> bool
    decreases a.len(),
{
    if a.len() == 0 {
        b.len() > 0
    } else if b.len() == 0 {
        false
    } else if a[0] != b[0] {
        a[0] < b[0]
    } else {
        sorts_before(a.drop_first(), b.drop_first())
    }
}

/// `names` with `n` added where it sorts, unless it is already there.
pub open spec fn insert_sorted(names: Seq<Seq<char>>, n: Seq<char>) -> Seq<Seq<char>>
    decreases names.len(),
{
    if names.len() == 0 {
        seq![n]
    } else if names[0] == n {
        names
    } else if sorts_before(n, names[0]) {
        seq![n] + names
    } else {
        seq![names[0]] + insert_sorted(names.drop_first(), n)
    }
}

/// The distinct first names of `paths`, sorted, or the first path (in
/// order) that has none.
pub open spec fn collect_names(paths: Seq<Seq<char>>) -> Result<Seq<Seq<char>>, Seq<char>>
    decreases paths.len(),
{
    if paths.len() == 0 {
        Ok(Seq::empty())
    } else {
        match collect_names(paths.drop_last()) {
            Err(p) => Err(p),
            Ok(names) => match first_name(paths.last()) {
                None => Err(paths.last()),
                Some(n) => Ok(insert_sorted(names, n)),
            },
        }
    }
}

/// The top level of a tarball whose entries read as `paths`, reading
/// having stopped at `read_error` if that is set: an entry with no name is
/// refused first, then a read error, and otherwise the distinct first
/// names, sorted.
pub open spec fn top_level_of(paths: Seq<Seq<char>>, read_error: Option<Seq<char>>) -> Result<
    Seq<Seq<char>>,
    ErrorText,
> {
    match collect_names(paths) {
        Err(p) => Err(ErrorText::BadRelease("archive entry with no name: "@ + p)),
        Ok(names) => match read_error {
            Some(m) => Err(ErrorText::Io(m)),
            None => Ok(names),
        },
    }
}

/// The top level of the gzip-compressed tarball `archive`.
pub open spec fn archive_top_level(archive: Seq<u8>) -> Result<Seq<Seq<char>>, ErrorText> {
    top_level_of(tar_gz_entries(archive).0, tar_gz_entries(archive).1)
}

/// The texts of `v`.
pub open spec fn texts(v: Seq<String>) -> Seq<Seq<char>> {
    v.map_values(|s: String| s@)
}

/// No sequence sorts before itself.
proof fn lemma_sorts_irreflexive(a: Seq<char>)
    ensures
        !sorts_before(a, a),
    decreases a.len(),
{
    if a.len() > 0 {
        lemma_sorts_irreflexive(a.drop_first());
    }
}

/// Of two sequences, at most one sorts before the other.
proof fn lemma_sorts_asymmetric(a: Seq<char>, b: Seq<char>)
    ensures
        !(sorts_before(a, b) && sorts_before(b, a)),
    decreases a.len(),
{
    if a.len() > 0 && b.len() > 0 && a[0] == b[0] {
        lemma_sorts_asymmetric(a.drop_first(), b.drop_first());
    }
}

/// Of two different sequences, one sorts before the other.
proof fn lemma_sorts_total(a: Seq<char>, b: Seq<char>)
    requires
        a != b,
    ensures
        sorts_before(a, b) || sorts_before(b, a),
    decreases a.len(),
{
    if a.len() == 0 && b.len() == 0 {
        assert(a =~= b);
    }
    if a.len() > 0 && b.len() > 0 && a[0] == b[0] {
        if a.drop_first() == b.drop_first() {
            assert(a =~= seq![a[0]] + a.drop_first());
            assert(b =~= seq![b[0]] + b.drop_first());
        }
        lemma_sorts_total(a.drop_first(), b.drop_first());
    }
}

/// Sorting is transitive.
proof fn lemma_sorts_transitive(a: Seq<char>, b: Seq<char>, c: Seq<char>)
    requires
        sorts_before(a, b),
        sorts_before(b, c),
    ensures
        sorts_before(a, c),
    decreases a.len(),
{
    if a.len() > 0 && a[0] == b[0] && b[0] == c[0] {
        lemma_sorts_transitive(a.drop_first(), b.drop_first(), c.drop_first());
    }
}

/// Inserting where a scan stopped: every name before `k` sorts before `n`,
/// and the name at `k`, if any, does not.
proof fn lemma_insert_at(names: Seq<Seq<char>>, n: Seq<char>, k: int)
    requires
        0 <= k <= names.len(),
        forall|i: int| 0 <= i < k ==> sorts_before(#[trigger] names[i], n),
        k < names.len() ==> !sorts_before(names[k], n),
    ensures
        insert_sorted(names, n) == (if k < names.len() && names[k] == n {
            names
        } else {
            names.insert(k, n)
        }),
    decreases k,
{
    if k == 0 {
        if names.len() == 0 {
            assert(names.insert(0, n) =~= seq![n]);
        } else if names[0] != n {
            lemma_sorts_total(n, names[0]);
            assert(names.insert(0, n) =~= seq![n] + names);
        }
    } else {
        lemma_sorts_irreflexive(n);
        lemma_sorts_asymmetric(names[0], n);
        let rest = names.drop_first();
        assert forall|i: int| 0 <= i < k - 1 implies sorts_before(#[trigger] rest[i], n) by {
            assert(rest[i] == names[i + 1]);
        }
        lemma_insert_at(rest, n, k - 1);
        if k < names.len() && names[k] == n {
            assert(seq![names[0]] + rest =~= names);
        } else {
            assert(seq![names[0]] + rest.insert(k - 1, n) =~= names.insert(k, n));
        }
    }
}

/// `s` with `x` in front holds `m` exactly when `s` does or `m` is `x`.
proof fn lemma_cons_contains(x: Seq<char>, s: Seq<Seq<char>>, m: Seq<char>)
    ensures
        (seq![x] + s).contains(m) <==> (s.contains(m) || m == x),
{
    let t = seq![x] + s;
    assert(t[0] == x);
    if s.contains(m) {
        let j = choose|j: int| 0 <= j < s.len() && s[j] == m;
        assert(t[j + 1] == m);
    }
    if t.contains(m) && m != x {
        let j = choose|j: int| 0 <= j < t.len() && t[j] == m;
        assert(s[j - 1] == m);
    }
}

/// A name is among the result exactly when it was among `names` or is `n`.
proof fn lemma_insert_contains(names: Seq<Seq<char>>, n: Seq<char>, m: Seq<char>)
    ensures
        insert_sorted(names, n).contains(m) <==> (names.contains(m) || m == n),
    decreases names.len(),
{
    if names.len() == 0 {
        lemma_cons_contains(n, names, m);
        assert(seq![n] + names =~= seq![n]);
    } else {
        let rest = names.drop_first();
        assert(names =~= seq![names[0]] + rest);
        lemma_cons_contains(names[0], rest, m);
        if names[0] == n {
        } else if sorts_before(n, names[0]) {
            lemma_cons_contains(n, names, m);
        } else {
            lemma_insert_contains(rest, n, m);
            lemma_cons_contains(names[0], insert_sorted(rest, n), m);
        }
    }
}

/// Whether each name sorts before every later one: sorted, none twice.
pub open spec fn strictly_sorted(names: Seq<Seq<char>>) -> bool {
    forall|i: int, j: int| 0 <= i < j < names.len() ==> sorts_before(#[trigger] names[i], #[trigger] names[j])
}

/// Inserting keeps a strictly sorted list strictly sorted.
proof fn lemma_insert_sorted_sorted(names: Seq<Seq<char>>, n: Seq<char>)
    requires
        strictly_sorted(names),
    ensures
        strictly_sorted(insert_sorted(names, n)),
    decreases names.len(),
{
    if names.len() > 0 {
        let rest = names.drop_first();
        assert(strictly_sorted(rest)) by {
            assert forall|i: int, j: int| 0 <= i < j < rest.len() implies sorts_before(
                #[trigger] rest[i],
                #[trigger] rest[j],
            ) by {
                assert(rest[i] == names[i + 1] && rest[j] == names[j + 1]);
            }
        }
        if names[0] == n {
        } else if sorts_before(n, names[0]) {
            let s = seq![n] + names;
            assert forall|i: int, j: int| 0 <= i < j < s.len() implies sorts_before(
                #[trigger] s[i],
                #[trigger] s[j],
            ) by {
                if i == 0 {
                    if j > 1 {
                        assert(sorts_before(names[0], names[j - 1]));
                        lemma_sorts_transitive(n, names[0], names[j - 1]);
                    }
                } else {
                    assert(s[i] == names[i - 1] && s[j] == names[j - 1]);
                }
            }
        } else {
            lemma_insert_sorted_sorted(rest, n);
            let t = insert_sorted(rest, n);
            let s = seq![names[0]] + t;
            lemma_sorts_total(n, names[0]);
            assert forall|i: int, j: int| 0 <= i < j < s.len() implies sorts_before(
                #[trigger] s[i],
                #[trigger] s[j],
            ) by {
                if i == 0 {
                    lemma_insert_contains(rest, n, t[j - 1]);
                    assert(t.contains(t[j - 1]));
                    if rest.contains(t[j - 1]) {
                        let k = choose|k: int| 0 <= k < rest.len() && rest[k] == t[j - 1];
                        assert(names[k + 1] == t[j - 1]);
                    }
                } else {
                    assert(s[i] == t[i - 1] && s[j] == t[j - 1]);
                }
            }
        }
    }
}

/// The names collected from `paths` are sorted with none twice, and a name
/// is among them exactly when it is the first name of one of the paths.
pub proof fn lemma_top_level_sorted_and_complete(paths: Seq<Seq<char>>)
    ensures
        collect_names(paths) matches Ok(names) ==> {
            &&& strictly_sorted(names)
            &&& forall|m: Seq<char>|
                names.contains(m) <==> exists|i: int| 0 <= i < paths.len() && #[trigger] first_name(paths[i]) == Some(m)
        },
    decreases paths.len(),
{
    if paths.len() > 0 {
        let init = paths.drop_last();
        lemma_top_level_sorted_and_complete(init);
        if let Ok(names) = collect_names(init) {
            if let Some(n) = first_name(paths.last()) {
                lemma_insert_sorted_sorted(names, n);
                assert forall|m: Seq<char>|
                    insert_sorted(names, n).contains(m) <==> exists|i: int|
                        0 <= i < paths.len() && #[trigger] first_name(paths[i]) == Some(m) by {
                    lemma_insert_contains(names, n, m);
                    if m == n {
                        assert(first_name(paths[paths.len() - 1]) == Some(m));
                    }
                    if names.contains(m) {
                        let i = choose|i: int| 0 <= i < init.len() && #[trigger] first_name(init[i]) == Some(m);
                        assert(paths[i] == init[i]);
                    }
                    if exists|i: int| 0 <= i < paths.len() && #[trigger] first_name(paths[i]) == Some(m) {
                        let i = choose|i: int| 0 <= i < paths.len() && #[trigger] first_name(paths[i]) == Some(m);
                        if i < paths.len() - 1 {
                            assert(init[i] == paths[i]);
                        }
                    }
                }
            }
        }
    }
}

/// Whether `a` sorts before `b`.
fn chars_sort_before(a: &Vec<char>, b: &Vec<char>) -> (r: bool)
    ensures
        r == sorts_before(a@, b@),
{
    let mut i: usize = 0;
    assert(a@.skip(0) =~= a@ && b@.skip(0) =~= b@);
    while i < a.len() && i < b.len()
        invariant
            i <= a.len(),
            i <= b.len(),
            sorts_before(a@, b@) == sorts_before(a@.skip(i as int), b@.skip(i as int)),
        decreases a.len() - i,
    {
        if a[i] != b[i] {
            return a[i] < b[i];
        }
        assert(a@.skip(i as int).drop_first() =~= a@.skip(i + 1));
        assert(b@.skip(i as int).drop_first() =~= b@.skip(i + 1));
        i = i + 1;
    }
    b.len() > i
}

/// The first of the pieces that is a name.
fn first_named_piece(pieces: &Vec<Vec<char>>) -> (r: Option<Vec<char>>)
    ensures
        match r {
            Some(p) => first_named(pieces@.map_values(|v: Vec<char>| v@)) == Some(p@),
            None => first_named(pieces@.map_values(|v: Vec<char>| v@)) is None,
        },
{
    let ghost ps = pieces@.map_values(|v: Vec<char>| v@);
    let mut i: usize = 0;
    assert(ps.skip(0) =~= ps);
    while i < pieces.len()
        invariant
            i <= pieces.len(),
            ps == pieces@.map_values(|v: Vec<char>| v@),
            first_named(ps) == first_named(ps.skip(i as int)),
        decreases pieces.len() - i,
    {
        let p = &pieces[i];
        let empty = p.len() == 0;
        let dot = text::chars_eq_str(p, ".");
        let dots = text::chars_eq_str(p, "..");
        assert(ps.skip(i as int)[0] == p@);
        if empty {
            assert(p@ =~= Seq::<char>::empty());
        }
        if !empty && !dot && !dots {
            return Some(p.clone());
        }
        assert(ps.skip(i as int).drop_first() =~= ps.skip(i + 1));
        i = i + 1;
    }
    assert(ps.skip(i as int) =~= Seq::<Seq<char>>::empty());
    None
}

/// The first normal component of `path`, `None` for a path with no name.
pub fn first_name_of(path: &str) -> (r: Option<String>)
    ensures
        text::opt_text(r) == first_name(path@),
{
    let cs = text::chars_of(path);
    let pieces = text::split_chars(&cs, '/');
    assert(pieces@.map_values(|v: Vec<char>| v@) =~= text::split_on(cs@, '/'));
    match first_named_piece(&pieces) {
        Some(p) => Some(text::string_of(&p)),
        None => None,
    }
}

/// Insert `n` into the sorted, distinct `names` unless it is already there.
fn insert_name(names: &mut Vec<String>, n: String)
    ensures
        texts(final(names)@) == insert_sorted(texts(old(names)@), n@),
{
    let ghost before = texts(names@);
    let nc = text::chars_of(n.as_str());
    let mut k: usize = 0;
    while k < names.len()
        invariant
            k <= names.len(),
            before == texts(names@),
            nc@ == n@,
            forall|i: int| 0 <= i < k ==> sorts_before(#[trigger] before[i], n@),
        ensures
            k <= names.len(),
            forall|i: int| 0 <= i < k ==> sorts_before(#[trigger] before[i], n@),
            k < names.len() ==> !sorts_before(before[k as int], n@),
        decreases names.len() - k,
    {
        let c = text::chars_of(names[k].as_str());
        assert(before[k as int] == names@[k as int]@);
        if !chars_sort_before(&c, &nc) {
            break;
        }
        k = k + 1;
    }
    proof {
        lemma_insert_at(before, n@, k as int);
    }
    if k < names.len() {
        let c = text::chars_of(names[k].as_str());
        assert(before[k as int] == names@[k as int]@);
        if text::chars_eq(&c, &nc) {
            return;
        }
    }
    names.insert(k, n);
    assert(texts(names@) =~= before.insert(k as int, n@));
}

/// The top level of a tarball whose entries read as `paths`, reading
/// having stopped at `read_error` if that is set: an entry with no name
/// is refused first, then the read error; otherwise the distinct first
/// names, sorted.
pub fn top_level_names(paths: &Vec<String>, read_error: &Option<String>) -> (r: Result<Vec<String>, UpdateError>)
    ensures
        match r {
            Ok(names) => top_level_of(texts(paths@), text::opt_text(*read_error)) == Ok::<
                Seq<Seq<char>>,
                ErrorText,
            >(texts(names@)),
            Err(e) => top_level_of(texts(paths@), text::opt_text(*read_error)) == Err::<
                Seq<Seq<char>>,
                ErrorText,
            >(e@),
        },
{
    let ghost ps = texts(paths@);
    let mut names: Vec<String> = Vec::new();
    let mut i: usize = 0;
    assert(ps.take(0) =~= Seq::<Seq<char>>::empty());
    assert(texts(names@) =~= Seq::<Seq<char>>::empty());
    while i < paths.len()
        invariant
            i <= paths.len(),
            ps == texts(paths@),
            collect_names(ps.take(i as int)) == Ok::<Seq<Seq<char>>, Seq<char>>(texts(names@)),
        decreases paths.len() - i,
    {
        assert(ps.take(i + 1).drop_last() =~= ps.take(i as int));
        assert(ps.take(i + 1).last() == paths@[i as int]@);
        match first_name_of(paths[i].as_str()) {
            None => {
                proof {
                    lemma_collect_err_stays(ps, i as int + 1);
                }
                let mut m = text::owned("archive entry with no name: ");
                text::push_str(&mut m, paths[i].as_str());
                return Err(UpdateError::BadRelease(m));
            },
            Some(n) => {
                insert_name(&mut names, n);
            },
        }
        i = i + 1;
    }
    assert(ps.take(paths.len() as int) =~= ps);
    match read_error {
        Some(m) => Err(UpdateError::Io(m.clone())),
        None => Ok(names),
    }
}

/// Once a path with no name is met, it is the answer, whatever follows.
proof fn lemma_collect_err_stays(paths: Seq<Seq<char>>, i: int)
    requires
        0 <= i <= paths.len(),
        collect_names(paths.take(i)) is Err,
    ensures
        collect_names(paths) == collect_names(paths.take(i)),
    decreases paths.len() - i,
{
    if i < paths.len() {
        assert(paths.take(i + 1).drop_last() =~= paths.take(i));
        lemma_collect_err_stays(paths, i + 1);
    } else {
        assert(paths.take(i) =~= paths);
    }
}

/// The top level of the gzip-compressed tarball `archive`: its entries
/// read by `tar`, then `top_level_names` of them.
pub fn top_level(archive: &[u8]) -> (r: Result<Vec<String>, UpdateError>)
    ensures
        match r {
            Ok(names) => archive_top_level(archive@) == Ok::<Seq<Seq<char>>, ErrorText>(texts(names@)),
            Err(e) => archive_top_level(archive@) == Err::<Seq<Seq<char>>, ErrorText>(e@),
        },
{
    let (paths, read_error) = entry_paths(archive);
    assert(texts(paths@) == paths@.map_values(|p: String| p@));
    top_level_names(&paths, &read_error)
}

} // verus!
