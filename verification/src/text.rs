//! Character-level text helpers: every string the library builds or takes
//! apart goes through these, so each operation has a statement over `Seq<char>`.
use vstd::prelude::*;

verus! {

/// `String::push`.
#[verifier::external_body]
pub(crate) fn push_char(s: &mut String, c: char)
    ensures
        final(s)@ == old(s)@.push(c),
{
    s.push(c)
}

/// The characters of an optional string.
pub open spec fn opt_text(o: Option<String>) -> Option<Seq<char>> {
    match o {
        Some(s) => Some(s@),
        None => None,
    }
}

/// The characters of `s`, in order.
pub fn chars_of(s: &str) -> (v: Vec<char>)
    ensures
        v@ == s@,
{
    let mut v: Vec<char> = Vec::new();
    for c in it: s.chars()
        invariant
            v@ == it.seq().take(it.index() as int),
            it.seq() == s@,
    {
        v.push(c);
    }
    v
}


/// The characters of `cs`, as a `String`.
pub fn string_of(cs: &Vec<char>) -> (s: String)
    ensures
        s@ == cs@,
{
    let mut s = String::new();
    let mut i: usize = 0;
    while i < cs.len()
        invariant
            i <= cs.len(),
            s@ == cs@.take(i as int),
        decreases cs.len() - i,
    {
        push_char(&mut s, cs[i]);
        i = i + 1;
        assert(s@ == cs@.take(i as int));
    }
    assert(cs@.take(cs.len() as int) == cs@);
    s
}

/// Appends the characters of `cs` to `s`.
pub fn push_chars(s: &mut String, cs: &Vec<char>)
    ensures
        final(s)@ == old(s)@ + cs@,
{
    let mut i: usize = 0;
    while i < cs.len()
        invariant
            i <= cs.len(),
            s@ == old(s)@ + cs@.take(i as int),
        decreases cs.len() - i,
    {
        push_char(s, cs[i]);
        i = i + 1;
        assert(s@ == old(s)@ + cs@.take(i as int));
    }
    assert(cs@.take(cs.len() as int) == cs@);
}

/// Appends `t` to `s`.
pub fn push_str(s: &mut String, t: &str)
    ensures
        final(s)@ == old(s)@ + t@,
{
    let cs = chars_of(t);
    push_chars(s, &cs);
}

/// A `String` holding exactly `t`.
pub fn owned(t: &str) -> (s: String)
    ensures
        s@ == t@,
{
    let mut s = String::new();
    push_str(&mut s, t);
    s
}

/// The ASCII digit for `d < 10`.
pub open spec fn digit_char(d: nat) -> char {
    if d == 0 { '0' }
    else if d == 1 { '1' }
    else if d == 2 { '2' }
    else if d == 3 { '3' }
    else if d == 4 { '4' }
    else if d == 5 { '5' }
    else if d == 6 { '6' }
    else if d == 7 { '7' }
    else if d == 8 { '8' }
    else { '9' }
}

/// `n` in decimal, no sign, no leading zeros (`0` is `"0"`).
pub open spec fn decimal(n: nat) -> Seq<char>
    decreases n,
{
    if n < 10 {
        seq![digit_char(n)]
    } else {
        decimal(n / 10).push(digit_char(n % 10))
    }
}

/// The digit character for `d`.
fn digit_of(d: u64) -> (c: char)
    requires
        d < 10,
    ensures
        c == digit_char(d as nat),
{
    if d == 0 { '0' }
    else if d == 1 { '1' }
    else if d == 2 { '2' }
    else if d == 3 { '3' }
    else if d == 4 { '4' }
    else if d == 5 { '5' }
    else if d == 6 { '6' }
    else if d == 7 { '7' }
    else if d == 8 { '8' }
    else { '9' }
}

/// Appends `n` in decimal to `s`.
pub fn push_decimal(s: &mut String, n: u64)
    ensures
        final(s)@ == old(s)@ + decimal(n as nat),
    decreases n,
{
    if n < 10 {
        push_char(s, digit_of(n));
        assert(seq![digit_char(n as nat)] =~= decimal(n as nat));
    } else {
        push_decimal(s, n / 10);
        push_char(s, digit_of(n % 10));
        assert(old(s)@ + decimal((n / 10) as nat) + seq![digit_char((n % 10) as nat)]
            =~= old(s)@ + decimal(n as nat));
    }
}

/// `n` in decimal, with a leading `-` when negative.
pub open spec fn signed_decimal(n: int) -> Seq<char> {
    if n < 0 {
        seq!['-'] + decimal((-n) as nat)
    } else {
        decimal(n as nat)
    }
}

/// Appends `n` in decimal, with a leading `-` when negative, to `s`.
pub fn push_signed(s: &mut String, n: i64)
    ensures
        final(s)@ == old(s)@ + signed_decimal(n as int),
{
    if n < 0 {
        push_char(s, '-');
        let m: u64 = if n == i64::MIN {
            0x8000_0000_0000_0000
        } else {
            (-n) as u64
        };
        push_decimal(s, m);
        assert(old(s)@.push('-') + decimal(m as nat) =~= old(s)@ + signed_decimal(n as int));
    } else {
        push_decimal(s, n as u64);
    }
}

/// `n` in decimal, as a `String`.
pub fn decimal_string(n: u64) -> (s: String)
    ensures
        s@ == decimal(n as nat),
{
    let mut s = String::new();
    push_decimal(&mut s, n);
    assert(Seq::<char>::empty() + decimal(n as nat) =~= decimal(n as nat));
    s
}

/// Unicode `White_Space`, the set `char::is_whitespace` documents.
pub open spec fn is_white_space(c: char) -> bool {
    let u = c as u32;
    ||| 0x9 <= u <= 0xd
    ||| u == 0x20
    ||| u == 0x85
    ||| u == 0xa0
    ||| u == 0x1680
    ||| 0x2000 <= u <= 0x200a
    ||| u == 0x2028
    ||| u == 0x2029
    ||| u == 0x202f
    ||| u == 0x205f
    ||| u == 0x3000
}

/// `char::is_whitespace`.
pub fn is_whitespace(c: char) -> (b: bool)
    ensures
        b == is_white_space(c),
{
    let u = c as u32;
    (0x9 <= u && u <= 0xd) || u == 0x20 || u == 0x85 || u == 0xa0 || u == 0x1680
        || (0x2000 <= u && u <= 0x200a) || u == 0x2028 || u == 0x2029 || u == 0x202f
        || u == 0x205f || u == 0x3000
}

/// `s` without its leading white space.
pub open spec fn trim_start(s: Seq<char>) -> Seq<char>
    decreases s.len(),
{
    if s.len() > 0 && is_white_space(s[0]) {
        trim_start(s.drop_first())
    } else {
        s
    }
}

/// `s` without its trailing white space.
pub open spec fn trim_end(s: Seq<char>) -> Seq<char>
    decreases s.len(),
{
    if s.len() > 0 && is_white_space(s.last()) {
        trim_end(s.drop_last())
    } else {
        s
    }
}

/// `str::trim`: white space removed from both ends.
pub open spec fn trim(s: Seq<char>) -> Seq<char> {
    trim_end(trim_start(s))
}

/// Dropping a leading run of white space does not change `trim_start`.
proof fn lemma_trim_start_skip(s: Seq<char>, i: int)
    requires
        0 <= i <= s.len(),
        forall|j: int| 0 <= j < i ==> is_white_space(#[trigger] s[j]),
    ensures
        trim_start(s) == trim_start(s.skip(i)),
    decreases i,
{
    if i > 0 {
        assert(s.drop_first().skip(i - 1) =~= s.skip(i));
        assert forall|j: int| 0 <= j < i - 1 implies is_white_space(#[trigger] s.drop_first()[j]) by {
            assert(s.drop_first()[j] == s[j + 1]);
        }
        lemma_trim_start_skip(s.drop_first(), i - 1);
    } else {
        assert(s.skip(0) =~= s);
    }
}

/// Dropping a trailing run of white space does not change `trim_end`.
proof fn lemma_trim_end_take(s: Seq<char>, i: int)
    requires
        0 <= i <= s.len(),
        forall|j: int| i <= j < s.len() ==> is_white_space(#[trigger] s[j]),
    ensures
        trim_end(s) == trim_end(s.take(i)),
    decreases s.len() - i,
{
    if i < s.len() {
        assert(s.drop_last().take(i) =~= s.take(i));
        lemma_trim_end_take(s.drop_last(), i);
    } else {
        assert(s.take(i) =~= s);
    }
}

/// The bounds `[lo, hi)` of `trim(cs)` inside `cs`.
pub fn trim_bounds(cs: &Vec<char>) -> (r: (usize, usize))
    ensures
        r.0 <= r.1 <= cs.len(),
        cs@.subrange(r.0 as int, r.1 as int) == trim(cs@),
        cs@.subrange(r.0 as int, cs.len() as int) == trim_start(cs@),
{
    let mut lo: usize = 0;
    while lo < cs.len() && is_whitespace(cs[lo])
        invariant
            lo <= cs.len(),
            forall|j: int| 0 <= j < lo ==> is_white_space(#[trigger] cs@[j]),
        decreases cs.len() - lo,
    {
        lo = lo + 1;
    }
    proof {
        lemma_trim_start_skip(cs@, lo as int);
        assert(cs@.skip(lo as int) =~= cs@.subrange(lo as int, cs.len() as int));
        if lo < cs.len() {
            assert(!is_white_space(cs@.skip(lo as int)[0]));
        }
        assert(trim_start(cs@.skip(lo as int)) == cs@.skip(lo as int));
    }
    let mut hi: usize = cs.len();
    while hi > lo && is_whitespace(cs[hi - 1])
        invariant
            lo <= hi <= cs.len(),
            forall|j: int| hi <= j < cs.len() ==> is_white_space(#[trigger] cs@[j]),
        decreases hi,
    {
        hi = hi - 1;
    }
    proof {
        let t = cs@.subrange(lo as int, cs.len() as int);
        assert forall|j: int| hi - lo <= j < t.len() implies is_white_space(#[trigger] t[j]) by {
            assert(t[j] == cs@[j + lo]);
        }
        lemma_trim_end_take(t, hi - lo);
        assert(t.take(hi - lo) =~= cs@.subrange(lo as int, hi as int));
        let u = t.take(hi - lo);
        if u.len() > 0 {
            assert(u.last() == cs@[hi - 1]);
        }
        assert(trim_end(u) == u);
    }
    (lo, hi)
}

/// `Vec` of the characters of `cs@.subrange(lo, hi)`.
pub fn slice_chars(cs: &Vec<char>, lo: usize, hi: usize) -> (r: Vec<char>)
    requires
        lo <= hi <= cs.len(),
    ensures
        r@ == cs@.subrange(lo as int, hi as int),
{
    let mut r: Vec<char> = Vec::new();
    let mut i = lo;
    while i < hi
        invariant
            lo <= i <= hi <= cs.len(),
            r@ == cs@.subrange(lo as int, i as int),
        decreases hi - i,
    {
        r.push(cs[i]);
        i = i + 1;
        assert(r@ =~= cs@.subrange(lo as int, i as int));
    }
    r
}

/// Whether `a` and `b` hold the same characters.
pub fn chars_eq(a: &Vec<char>, b: &Vec<char>) -> (r: bool)
    ensures
        r == (a@ == b@),
{
    if a.len() != b.len() {
        return false;
    }
    let mut i: usize = 0;
    while i < a.len()
        invariant
            a.len() == b.len(),
            i <= a.len(),
            forall|j: int| 0 <= j < i ==> a@[j] == b@[j],
        decreases a.len() - i,
    {
        if a[i] != b[i] {
            return false;
        }
        i = i + 1;
    }
    assert(a@ =~= b@);
    true
}

/// Whether the characters of `a` are those of `b`.
pub fn chars_eq_str(a: &Vec<char>, b: &str) -> (r: bool)
    ensures
        r == (a@ == b@),
{
    let bc = chars_of(b);
    chars_eq(a, &bc)
}

/// Whether `s` begins with `p`.
pub fn starts_with_chars(s: &Vec<char>, p: &Vec<char>) -> (r: bool)
    ensures
        r == (p.len() <= s.len() && s@.take(p.len() as int) == p@),
{
    if p.len() > s.len() {
        return false;
    }
    let mut i: usize = 0;
    while i < p.len()
        invariant
            p.len() <= s.len(),
            i <= p.len(),
            forall|j: int| 0 <= j < i ==> s@[j] == p@[j],
        decreases p.len() - i,
    {
        if s[i] != p[i] {
            assert(s@.take(p.len() as int)[i as int] != p@[i as int]);
            return false;
        }
        i = i + 1;
    }
    assert(s@.take(p.len() as int) =~= p@);
    true
}


/// `s` split at every `sep`, as `str::split` does: `k` separators give
/// `k + 1` pieces, empty ones included.
pub open spec fn split_on(s: Seq<char>, sep: char) -> Seq<Seq<char>>
    decreases s.len(),
{
    if s.len() == 0 {
        seq![Seq::<char>::empty()]
    } else {
        let r = split_on(s.drop_last(), sep);
        if s.last() == sep {
            r.push(Seq::<char>::empty())
        } else {
            r.update(r.len() - 1, r.last().push(s.last()))
        }
    }
}

/// Splitting always gives at least one piece.
pub proof fn lemma_split_on_nonempty(s: Seq<char>, sep: char)
    ensures
        split_on(s, sep).len() >= 1,
    decreases s.len(),
{
    if s.len() > 0 {
        lemma_split_on_nonempty(s.drop_last(), sep);
    }
}

/// The pieces of `cs` between occurrences of `sep`.
pub fn split_chars(cs: &Vec<char>, sep: char) -> (r: Vec<Vec<char>>)
    ensures
        r.len() == split_on(cs@, sep).len(),
        forall|i: int| 0 <= i < r.len() ==> #[trigger] r[i]@ == split_on(cs@, sep)[i],
{
    let mut r: Vec<Vec<char>> = Vec::new();
    r.push(Vec::new());
    let mut i: usize = 0;
    while i < cs.len()
        invariant
            i <= cs.len(),
            r.len() >= 1,
            r.len() == split_on(cs@.take(i as int), sep).len(),
            forall|k: int| 0 <= k < r.len() ==> #[trigger] r[k]@ == split_on(cs@.take(i as int), sep)[k],
        decreases cs.len() - i,
    {
        let ghost before = cs@.take(i as int);
        let c = cs[i];
        assert(cs@.take(i + 1).drop_last() =~= before);
        assert(cs@.take(i + 1).last() == c);
        if c == sep {
            r.push(Vec::new());
        } else {
            let last = r.len() - 1;
            let mut piece = r.remove(last);
            piece.push(c);
            r.push(piece);
        }
        i = i + 1;
        assert forall|k: int| 0 <= k < r.len() implies #[trigger] r[k]@ == split_on(cs@.take(i as int), sep)[k] by {}
    }
    assert(cs@.take(cs.len() as int) =~= cs@);
    r
}

/// Whether `c` is an ASCII decimal digit.
pub open spec fn is_digit(c: char) -> bool {
    '0' <= c <= '9'
}

/// The value of a run of ASCII digits.
pub open spec fn digits_value(s: Seq<char>) -> nat
    decreases s.len(),
{
    if s.len() == 0 {
        0
    } else {
        digits_value(s.drop_last()) * 10 + ((s.last() as u32) - ('0' as u32)) as nat
    }
}

/// Every character is an ASCII digit.
pub open spec fn all_digits(s: Seq<char>) -> bool {
    forall|i: int| 0 <= i < s.len() ==> is_digit(#[trigger] s[i])
}

/// `u32::from_str`: an optional `+`, then one or more ASCII digits whose
/// value fits.
pub open spec fn parse_u32(s: Seq<char>) -> Option<u32> {
    let d = if s.len() > 0 && s[0] == '+' { s.drop_first() } else { s };
    if d.len() > 0 && all_digits(d) && digits_value(d) <= u32::MAX {
        Some(digits_value(d) as u32)
    } else {
        None
    }
}

/// `decimal(n)` is a non-empty run of digits whose value is `n`.
pub proof fn lemma_decimal_digits(n: nat)
    ensures
        decimal(n).len() > 0,
        all_digits(decimal(n)),
        digits_value(decimal(n)) == n,
    decreases n,
{
    if n >= 10 {
        lemma_decimal_digits(n / 10);
        let d = decimal(n);
        assert(d.drop_last() == decimal(n / 10));
        assert(d.last() == digit_char(n % 10));
        assert((digit_char(n % 10) as u32) - ('0' as u32) == n % 10);
        assert((n / 10) * 10 + n % 10 == n) by (nonlinear_arith);
        assert(digits_value(d) == digits_value(d.drop_last()) * 10 + ((d.last() as u32) - ('0' as u32)) as nat);
        assert forall|i: int| 0 <= i < d.len() implies is_digit(#[trigger] d[i]) by {
            if i < d.len() - 1 {
                assert(d[i] == decimal(n / 10)[i]);
            }
        }
    } else {
        let d = decimal(n);
        assert((digit_char(n) as u32) - ('0' as u32) == n);
        assert(d.drop_last() =~= Seq::<char>::empty());
        assert(digits_value(d) == digits_value(d.drop_last()) * 10 + ((d.last() as u32) - ('0' as u32)) as nat);
    }
}

/// Parsing the decimal text of a `u32` gives it back.
pub proof fn lemma_parse_decimal(n: u32)
    ensures
        parse_u32(decimal(n as nat)) == Some(n),
{
    lemma_decimal_digits(n as nat);
    assert(is_digit(decimal(n as nat)[0]));
}

/// Splitting at a separator that ends `s` splits `s` and what follows
/// separately.
pub proof fn lemma_split_on_append(s: Seq<char>, sep: char, t: Seq<char>)
    ensures
        split_on(s.push(sep) + t, sep) == split_on(s, sep) + split_on(t, sep),
    decreases t.len(),
{
    if t.len() == 0 {
        assert(s.push(sep) + t =~= s.push(sep));
        assert(s.push(sep).drop_last() =~= s);
        assert(split_on(t, sep) =~= seq![Seq::<char>::empty()]);
        assert(split_on(s, sep).push(Seq::<char>::empty()) =~= split_on(s, sep) + split_on(t, sep));
    } else {
        let u = t.drop_last();
        lemma_split_on_append(s, sep, u);
        lemma_split_on_nonempty(u, sep);
        assert((s.push(sep) + t).drop_last() =~= s.push(sep) + u);
        assert((s.push(sep) + t).last() == t.last());
        let l = split_on(s, sep);
        let r = split_on(u, sep);
        if t.last() == sep {
            assert((l + r).push(Seq::<char>::empty()) =~= l + r.push(Seq::<char>::empty()));
        } else {
            assert((l + r).update((l + r).len() - 1, (l + r).last().push(t.last())) =~= l + r.update(
                r.len() - 1,
                r.last().push(t.last()),
            ));
        }
    }
}

/// Text without the separator is one piece.
pub proof fn lemma_split_on_none(s: Seq<char>, sep: char)
    requires
        forall|i: int| 0 <= i < s.len() ==> s[i] != sep,
    ensures
        split_on(s, sep) == seq![s],
    decreases s.len(),
{
    if s.len() > 0 {
        lemma_split_on_none(s.drop_last(), sep);
        assert(s.drop_last().push(s.last()) =~= s);
        assert(s.last() != sep);
        assert(seq![s.drop_last()].update(0, s) =~= seq![s]);
        let r = split_on(s.drop_last(), sep);
        assert(r.len() == 1 && r.last() == s.drop_last());
        assert(split_on(s, sep) == r.update(r.len() - 1, r.last().push(s.last())));
    } else {
        assert(s =~= Seq::<char>::empty());
    }
}

/// Text that starts and ends with something other than white space is its
/// own trim.
pub proof fn lemma_trim_unchanged(s: Seq<char>)
    requires
        s.len() > 0,
        !is_white_space(s[0]),
        !is_white_space(s.last()),
    ensures
        trim(s) == s,
{
}

/// `u32::from_str` over `cs`.
pub fn parse_u32_chars(cs: &Vec<char>) -> (r: Option<u32>)
    ensures
        r == parse_u32(cs@),
{
    let start: usize = if cs.len() > 0 && cs[0] == '+' { 1 } else { 0 };
    let ghost d = if cs@.len() > 0 && cs@[0] == '+' { cs@.drop_first() } else { cs@ };
    assert(d =~= cs@.skip(start as int));
    if start >= cs.len() {
        return None;
    }
    let mut value: u64 = 0;
    let mut i = start;
    while i < cs.len()
        invariant
            start <= i <= cs.len(),
            d == (if cs@.len() > 0 && cs@[0] == '+' { cs@.drop_first() } else { cs@ }),
            d =~= cs@.skip(start as int),
            all_digits(cs@.subrange(start as int, i as int)),
            value == digits_value(cs@.subrange(start as int, i as int)),
            value <= u32::MAX,
        decreases cs.len() - i,
    {
        let c = cs[i];
        let ghost prefix = cs@.subrange(start as int, i as int + 1);
        assert(prefix.drop_last() =~= cs@.subrange(start as int, i as int));
        if !('0' <= c && c <= '9') {
            assert(d[i - start] == c);
            assert(!is_digit(d[i - start]));
            assert(!all_digits(d));
            return None;
        }
        let digit = (c as u32 - '0' as u32) as u64;
        value = value * 10 + digit;
        assert(value == digits_value(prefix));
        if value > 0xffff_ffff {
            proof {
                assert(d.take((i - start + 1) as int) =~= prefix);
                if all_digits(d) {
                    lemma_digits_value_prefix_monotone(d, (i - start + 1) as int);
                }
            }
            return None;
        }
        i = i + 1;
    }
    assert(cs@.subrange(start as int, cs.len() as int) =~= d);
    Some(value as u32)
}

/// A longer run of digits is worth at least as much as its prefix.
proof fn lemma_digits_value_prefix_monotone(s: Seq<char>, k: int)
    requires
        0 <= k <= s.len(),
        all_digits(s),
    ensures
        digits_value(s.take(k)) <= digits_value(s),
    decreases s.len(),
{
    if k < s.len() {
        assert(s.drop_last().take(k) =~= s.take(k));
        assert(all_digits(s.drop_last()));
        lemma_digits_value_prefix_monotone(s.drop_last(), k);
    } else {
        assert(s.take(k) =~= s);
    }
}


/// Index of the first `c` in `s`.
pub open spec fn first_at(s: Seq<char>, c: char) -> Option<nat>
    decreases s.len(),
{
    if s.len() == 0 {
        None
    } else if s[0] == c {
        Some(0)
    } else {
        match first_at(s.drop_first(), c) {
            Some(k) => Some(k + 1),
            None => None,
        }
    }
}

/// `first_at` finds the first occurrence, or says there is none.
pub proof fn lemma_first_at(s: Seq<char>, c: char)
    ensures
        first_at(s, c) matches Some(i) ==> i < s.len() && s[i as int] == c && forall|j: int|
            0 <= j < i ==> s[j] != c,
        first_at(s, c) is None ==> forall|j: int| 0 <= j < s.len() ==> s[j] != c,
    decreases s.len(),
{
    if s.len() > 0 && s[0] != c {
        lemma_first_at(s.drop_first(), c);
        if first_at(s, c) is None {
            assert forall|j: int| 0 <= j < s.len() implies s[j] != c by {
                if j > 0 {
                    assert(s[j] == s.drop_first()[j - 1]);
                }
            }
        } else {
            assert forall|j: int| 0 <= j < first_at(s, c)->0 implies s[j] != c by {
                if j > 0 {
                    assert(s[j] == s.drop_first()[j - 1]);
                }
            }
        }
    }
}

/// `first_at` is the index `i` when no earlier character matches.
proof fn lemma_first_at_is(s: Seq<char>, c: char, i: int)
    requires
        0 <= i <= s.len(),
        forall|j: int| 0 <= j < i ==> s[j] != c,
        i < s.len() ==> s[i] == c,
    ensures
        i < s.len() ==> first_at(s, c) == Some(i as nat),
        i == s.len() ==> first_at(s, c) is None,
    decreases i,
{
    if i > 0 {
        assert forall|j: int| 0 <= j < i - 1 implies s.drop_first()[j] != c by {
            assert(s.drop_first()[j] == s[j + 1]);
        }
        if i < s.len() {
            assert(s.drop_first()[i - 1] == s[i]);
        }
        lemma_first_at_is(s.drop_first(), c, i - 1);
    }
}

/// The first index of `c` in `cs`.
pub fn find_char(cs: &Vec<char>, c: char) -> (r: Option<usize>)
    ensures
        r matches Some(i) ==> first_at(cs@, c) == Some(i as nat),
        r is None ==> first_at(cs@, c) is None,
        r matches Some(i) ==> i < cs.len() && cs@[i as int] == c,
{
    let mut i: usize = 0;
    while i < cs.len()
        invariant
            i <= cs.len(),
            forall|j: int| 0 <= j < i ==> cs@[j] != c,
        decreases cs.len() - i,
    {
        if cs[i] == c {
            proof { lemma_first_at_is(cs@, c, i as int); }
            return Some(i);
        }
        i = i + 1;
    }
    proof { lemma_first_at_is(cs@, c, i as int); }
    None
}

/// `str::split_once(c)`: the text before the first `c` and the text after it.
pub open spec fn split_once(s: Seq<char>, c: char) -> Option<(Seq<char>, Seq<char>)> {
    match first_at(s, c) {
        Some(i) => Some((s.take(i as int), s.skip(i as int + 1))),
        None => None,
    }
}

/// `split_once` over `cs`.
pub fn split_once_chars(cs: &Vec<char>, c: char) -> (r: Option<(Vec<char>, Vec<char>)>)
    ensures
        r matches Some(p) ==> split_once(cs@, c) == Some((p.0@, p.1@)),
        r is None ==> split_once(cs@, c) is None,
{
    match find_char(cs, c) {
        Some(i) => {
            let a = slice_chars(cs, 0, i);
            let b = slice_chars(cs, i + 1, cs.len());
            assert(a@ =~= cs@.take(i as int));
            assert(b@ =~= cs@.skip(i + 1));
            Some((a, b))
        },
        None => None,
    }
}

/// Whether `s` begins with `p`.
pub open spec fn starts_with(s: Seq<char>, p: Seq<char>) -> bool {
    p.len() <= s.len() && s.take(p.len() as int) == p
}


/// Whether every character of `cs` is an ASCII digit.
pub fn all_digit_chars(cs: &Vec<char>) -> (b: bool)
    ensures
        b == all_digits(cs@),
{
    let mut i: usize = 0;
    while i < cs.len()
        invariant
            i <= cs.len(),
            forall|j: int| 0 <= j < i ==> is_digit(#[trigger] cs@[j]),
        decreases cs.len() - i,
    {
        if !('0' <= cs[i] && cs[i] <= '9') {
            assert(!is_digit(cs@[i as int]));
            return false;
        }
        i = i + 1;
    }
    true
}


/// `s` without one trailing `\r`.
pub open spec fn strip_cr(l: Seq<char>) -> Seq<char> {
    if l.len() > 0 && l.last() == '\r' {
        l.drop_last()
    } else {
        l
    }
}

/// `str::lines`: split at `\n`, a `\r` before a `\n` dropped with it, and
/// no empty last line after a final `\n`.
pub open spec fn text_lines(t: Seq<char>) -> Seq<Seq<char>> {
    let p = split_on(t, '\n');
    let ended = p.take(p.len() - 1).map_values(|l: Seq<char>| strip_cr(l));
    if p.last().len() == 0 {
        ended
    } else {
        ended.push(p.last())
    }
}

/// The lines of `cs`, as `str::lines` yields them.
pub fn lines_of(cs: &Vec<char>) -> (r: Vec<Vec<char>>)
    ensures
        r.len() == text_lines(cs@).len(),
        forall|i: int| 0 <= i < r.len() ==> #[trigger] r[i]@ == text_lines(cs@)[i],
{
    let pieces = split_chars(cs, '\n');
    proof { lemma_split_on_nonempty(cs@, '\n'); }
    let ghost p = split_on(cs@, '\n');
    let ghost ended = p.take(p.len() - 1).map_values(|l: Seq<char>| strip_cr(l));
    let mut r: Vec<Vec<char>> = Vec::new();
    let n = pieces.len() - 1;
    let mut i: usize = 0;
    while i < n
        invariant
            n == pieces.len() - 1,
            pieces.len() == p.len(),
            forall|k: int| 0 <= k < pieces.len() ==> #[trigger] pieces[k]@ == p[k],
            ended == p.take(p.len() - 1).map_values(|l: Seq<char>| strip_cr(l)),
            i <= n,
            r.len() == i,
            forall|k: int| 0 <= k < i ==> #[trigger] r[k]@ == ended[k],
        decreases n - i,
    {
        let l = &pieces[i];
        let line = if l.len() > 0 && l[l.len() - 1] == '\r' {
            slice_chars(l, 0, l.len() - 1)
        } else {
            slice_chars(l, 0, l.len())
        };
        assert(line@ == strip_cr(p[i as int]));
        r.push(line);
        i = i + 1;
    }
    if pieces[n].len() != 0 {
        r.push(slice_chars(&pieces[n], 0, pieces[n].len()));
    }
    r
}

/// Index of the first white-space character of `s`.
pub open spec fn first_space(s: Seq<char>) -> Option<nat>
    decreases s.len(),
{
    if s.len() == 0 {
        None
    } else if is_white_space(s[0]) {
        Some(0)
    } else {
        match first_space(s.drop_first()) {
            Some(k) => Some(k + 1),
            None => None,
        }
    }
}

/// `first_space` is the index `i` when no earlier character is white space.
proof fn lemma_first_space_is(s: Seq<char>, i: int)
    requires
        0 <= i <= s.len(),
        forall|j: int| 0 <= j < i ==> !is_white_space(#[trigger] s[j]),
        i < s.len() ==> is_white_space(s[i]),
    ensures
        i < s.len() ==> first_space(s) == Some(i as nat),
        i == s.len() ==> first_space(s) is None,
    decreases i,
{
    if i > 0 {
        assert forall|j: int| 0 <= j < i - 1 implies !is_white_space(#[trigger] s.drop_first()[j]) by {
            assert(s.drop_first()[j] == s[j + 1]);
        }
        if i < s.len() {
            assert(s.drop_first()[i - 1] == s[i]);
        }
        lemma_first_space_is(s.drop_first(), i - 1);
    }
}

/// `str::split_once(char::is_whitespace)`.
pub open spec fn split_once_space(s: Seq<char>) -> Option<(Seq<char>, Seq<char>)> {
    match first_space(s) {
        Some(i) => Some((s.take(i as int), s.skip(i as int + 1))),
        None => None,
    }
}

/// `split_once_space` over `cs`.
pub fn split_once_space_chars(cs: &Vec<char>) -> (r: Option<(Vec<char>, Vec<char>)>)
    ensures
        r matches Some(p) ==> split_once_space(cs@) == Some((p.0@, p.1@)),
        r is None ==> split_once_space(cs@) is None,
{
    let mut i: usize = 0;
    while i < cs.len()
        invariant
            i <= cs.len(),
            forall|j: int| 0 <= j < i ==> !is_white_space(#[trigger] cs@[j]),
        decreases cs.len() - i,
    {
        if is_whitespace(cs[i]) {
            proof { lemma_first_space_is(cs@, i as int); }
            let a = slice_chars(cs, 0, i);
            let b = slice_chars(cs, i + 1, cs.len());
            assert(a@ =~= cs@.take(i as int));
            assert(b@ =~= cs@.skip(i as int + 1));
            return Some((a, b));
        }
        i = i + 1;
    }
    proof { lemma_first_space_is(cs@, i as int); }
    None
}

/// `s` without any of its leading `c`s.
pub open spec fn trim_start_matches(s: Seq<char>, c: char) -> Seq<char>
    decreases s.len(),
{
    if s.len() > 0 && s[0] == c {
        trim_start_matches(s.drop_first(), c)
    } else {
        s
    }
}

/// Dropping a leading run of `c` does not change `trim_start_matches`.
proof fn lemma_trim_start_matches_skip(s: Seq<char>, c: char, i: int)
    requires
        0 <= i <= s.len(),
        forall|j: int| 0 <= j < i ==> #[trigger] s[j] == c,
    ensures
        trim_start_matches(s, c) == trim_start_matches(s.skip(i), c),
    decreases i,
{
    if i > 0 {
        assert(s.drop_first().skip(i - 1) =~= s.skip(i));
        assert forall|j: int| 0 <= j < i - 1 implies #[trigger] s.drop_first()[j] == c by {
            assert(s.drop_first()[j] == s[j + 1]);
        }
        lemma_trim_start_matches_skip(s.drop_first(), c, i - 1);
    } else {
        assert(s.skip(0) =~= s);
    }
}

/// `trim_start_matches(s, c)` is `s` with its leading run of `c` dropped:
/// a suffix of `s` that does not start with `c`.
pub proof fn lemma_trim_start_matches_suffix(s: Seq<char>, c: char)
    ensures
        exists|k: int| 0 <= k <= s.len() && trim_start_matches(s, c) == #[trigger] s.skip(k),
        trim_start_matches(s, c).len() > 0 ==> trim_start_matches(s, c)[0] != c,
    decreases s.len(),
{
    if s.len() > 0 && s[0] == c {
        lemma_trim_start_matches_suffix(s.drop_first(), c);
        let k = choose|k: int|
            0 <= k <= s.drop_first().len() && trim_start_matches(s.drop_first(), c)
                == #[trigger] s.drop_first().skip(k);
        assert(s.drop_first().skip(k) =~= s.skip(k + 1));
    } else {
        assert(s.skip(0) =~= s);
    }
}

/// Where `trim_start_matches(cs, c)` begins.
pub fn skip_leading(cs: &Vec<char>, c: char) -> (k: usize)
    ensures
        k <= cs.len(),
        cs@.skip(k as int) == trim_start_matches(cs@, c),
{
    let mut k: usize = 0;
    while k < cs.len() && cs[k] == c
        invariant
            k <= cs.len(),
            forall|j: int| 0 <= j < k ==> #[trigger] cs@[j] == c,
        decreases cs.len() - k,
    {
        k = k + 1;
    }
    proof {
        lemma_trim_start_matches_skip(cs@, c, k as int);
        if k < cs.len() {
            assert(cs@.skip(k as int)[0] == cs@[k as int]);
        }
    }
    k
}

/// Whether `c` is an ASCII hexadecimal digit.
pub open spec fn is_hex(c: char) -> bool {
    ('0' <= c <= '9') || ('a' <= c <= 'f') || ('A' <= c <= 'F')
}

/// `char::to_ascii_lowercase`.
pub open spec fn ascii_lower(c: char) -> char {
    if 'A' <= c <= 'Z' {
        ((c as u32) + 32) as char
    } else {
        c
    }
}

/// `char::to_ascii_lowercase`.
pub fn to_ascii_lower(c: char) -> (r: char)
    ensures
        r == ascii_lower(c),
{
    if 'A' <= c && c <= 'Z' {
        let u = (c as u32 + 32) as u8;
        u as char
    } else {
        c
    }
}

/// The value of a hexadecimal digit.
pub open spec fn hex_value(c: char) -> nat {
    if '0' <= c <= '9' {
        ((c as u32) - ('0' as u32)) as nat
    } else if 'a' <= c <= 'f' {
        ((c as u32) - ('a' as u32) + 10) as nat
    } else {
        ((c as u32) - ('A' as u32) + 10) as nat
    }
}

/// The value of a hexadecimal digit.
pub fn hex_digit_value(c: char) -> (v: u8)
    requires
        is_hex(c),
    ensures
        v == hex_value(c),
        v < 16,
{
    if '0' <= c && c <= '9' {
        (c as u32 - '0' as u32) as u8
    } else if 'a' <= c && c <= 'f' {
        (c as u32 - 'a' as u32 + 10) as u8
    } else {
        (c as u32 - 'A' as u32 + 10) as u8
    }
}


/// `p` occurs in `s` starting at `i`.
pub open spec fn occurs_at(s: Seq<char>, p: Seq<char>, i: int) -> bool {
    0 <= i && i + p.len() <= s.len() && s.subrange(i, i + p.len()) == p
}

/// The first position at or after `i` where `p` occurs in `s`.
pub open spec fn first_occurrence_from(s: Seq<char>, p: Seq<char>, i: int) -> Option<nat>
    decreases s.len() + 1 - i,
{
    if i < 0 || i + p.len() > s.len() {
        None
    } else if occurs_at(s, p, i) {
        Some(i as nat)
    } else {
        first_occurrence_from(s, p, i + 1)
    }
}

/// If `p` occurs in `s` at or after `i`, searching from `i` finds it.
pub proof fn lemma_occurrence_found(s: Seq<char>, p: Seq<char>, i: int, j: int)
    requires
        0 <= i <= j,
        occurs_at(s, p, j),
    ensures
        first_occurrence_from(s, p, i) is Some,
    decreases j - i,
{
    if i < j && !occurs_at(s, p, i) {
        lemma_occurrence_found(s, p, i + 1, j);
    }
}

/// `str::find` with a string pattern, as a character index.
pub open spec fn first_occurrence(s: Seq<char>, p: Seq<char>) -> Option<nat> {
    first_occurrence_from(s, p, 0)
}

/// `first_occurrence_from` is `k` when `p` occurs there and nowhere between.
proof fn lemma_first_occurrence_from(s: Seq<char>, p: Seq<char>, i: int, k: int)
    requires
        0 <= i <= k,
        forall|j: int| i <= j < k ==> !occurs_at(s, p, j),
        k + p.len() > s.len() || occurs_at(s, p, k),
    ensures
        k + p.len() <= s.len() ==> first_occurrence_from(s, p, i) == Some(k as nat),
        k + p.len() > s.len() ==> first_occurrence_from(s, p, i) is None,
    decreases k - i,
{
    if i < k {
        assert(!occurs_at(s, p, i));
        lemma_first_occurrence_from(s, p, i + 1, k);
    }
}

/// Whether `p` occurs in `cs` at `i`.
pub fn occurs_at_chars(cs: &Vec<char>, p: &Vec<char>, i: usize) -> (b: bool)
    ensures
        b == occurs_at(cs@, p@, i as int),
{
    if i > cs.len() || p.len() > cs.len() - i {
        return false;
    }
    let mut j: usize = 0;
    while j < p.len()
        invariant
            i + p.len() <= cs.len(),
            j <= p.len(),
            forall|k: int| 0 <= k < j ==> cs@[i + k] == p@[k],
        decreases p.len() - j,
    {
        if cs[i + j] != p[j] {
            assert(cs@.subrange(i as int, i + p.len())[j as int] != p@[j as int]);
            return false;
        }
        j = j + 1;
    }
    assert(cs@.subrange(i as int, i + p.len()) =~= p@);
    true
}

/// The first character index at which `p` occurs in `cs`.
pub fn find_chars(cs: &Vec<char>, p: &Vec<char>) -> (r: Option<usize>)
    ensures
        r matches Some(i) ==> first_occurrence(cs@, p@) == Some(i as nat) && occurs_at(cs@, p@, i as int),
        r is None ==> first_occurrence(cs@, p@) is None,
{
    if p.len() > cs.len() {
        proof { lemma_first_occurrence_from(cs@, p@, 0, 0); }
        return None;
    }
    let last = cs.len() - p.len();
    let mut i: usize = 0;
    while i < last
        invariant
            last == cs.len() - p.len(),
            p.len() <= cs.len(),
            i <= last,
            forall|j: int| 0 <= j < i ==> !occurs_at(cs@, p@, j),
        decreases last - i,
    {
        if occurs_at_chars(cs, p, i) {
            proof { lemma_first_occurrence_from(cs@, p@, 0, i as int); }
            return Some(i);
        }
        i = i + 1;
    }
    if occurs_at_chars(cs, p, last) {
        proof { lemma_first_occurrence_from(cs@, p@, 0, last as int); }
        return Some(last);
    }
    proof { lemma_first_occurrence_from(cs@, p@, 0, last + 1); }
    None
}

/// The text after the last `c` in `s`, or all of `s` when there is none:
/// the first item of `str::rsplit(c)`.
pub open spec fn after_last(s: Seq<char>, c: char) -> Seq<char>
    decreases s.len(),
{
    if s.len() == 0 {
        s
    } else if s.last() == c {
        Seq::empty()
    } else {
        after_last(s.drop_last(), c).push(s.last())
    }
}

/// `after_last` over `cs`.
pub fn after_last_chars(cs: &Vec<char>, c: char) -> (r: Vec<char>)
    ensures
        r@ == after_last(cs@, c),
{
    let mut k: usize = cs.len();
    assert(cs@.take(k as int) =~= cs@);
    assert(cs@.skip(k as int) =~= Seq::<char>::empty());
    while k > 0 && cs[k - 1] != c
        invariant
            k <= cs.len(),
            after_last(cs@, c) == after_last(cs@.take(k as int), c) + cs@.skip(k as int),
        decreases k,
    {
        let ghost t = cs@.take(k as int);
        assert(t.drop_last() =~= cs@.take(k - 1));
        assert(cs@.skip(k - 1) =~= seq![cs@[k - 1]] + cs@.skip(k as int));
        assert(after_last(t, c) == after_last(t.drop_last(), c).push(t.last()));
        assert(after_last(t.drop_last(), c).push(t.last()) + cs@.skip(k as int)
            =~= after_last(t.drop_last(), c) + cs@.skip(k - 1));
        k = k - 1;
    }
    proof {
        if k == 0 {
            assert(cs@.take(0) =~= Seq::<char>::empty());
            assert(cs@.skip(0) =~= cs@);
        } else {
            let t = cs@.take(k as int);
            assert(t.last() == c);
            assert(after_last(t, c) =~= Seq::<char>::empty());
        }
    }
    let r = slice_chars(cs, k, cs.len());
    assert(r@ =~= Seq::<char>::empty() + cs@.skip(k as int) || k == 0);
    proof {
        if k == 0 {
            assert(after_last(cs@, c) == after_last(Seq::<char>::empty(), c) + cs@);
            assert(r@ =~= cs@);
        } else {
            assert(r@ =~= cs@.skip(k as int));
            assert(after_last(cs@, c) =~= cs@.skip(k as int));
        }
    }
    r
}


/// Index of the last `c` in `s`.
pub open spec fn last_at(s: Seq<char>, c: char) -> Option<nat>
    decreases s.len(),
{
    if s.len() == 0 {
        None
    } else if s.last() == c {
        Some((s.len() - 1) as nat)
    } else {
        last_at(s.drop_last(), c)
    }
}

/// `last_at` is `k` when no later character matches.
proof fn lemma_last_at_is(s: Seq<char>, c: char, k: int)
    requires
        0 <= k <= s.len(),
        forall|j: int| k <= j < s.len() ==> s[j] != c,
        k > 0 ==> s[k - 1] == c,
    ensures
        k > 0 ==> last_at(s, c) == Some((k - 1) as nat),
        k == 0 ==> last_at(s, c) is None,
    decreases s.len() - k,
{
    if s.len() > k {
        assert(s.drop_last().len() == s.len() - 1);
        assert forall|j: int| k <= j < s.drop_last().len() implies s.drop_last()[j] != c by {}
        if k > 0 {
            assert(s.drop_last()[k - 1] == s[k - 1]);
        }
        lemma_last_at_is(s.drop_last(), c, k);
    }
}

/// `str::rsplit_once(c)`: the text before the last `c` and the text after it.
pub open spec fn rsplit_once(s: Seq<char>, c: char) -> Option<(Seq<char>, Seq<char>)> {
    match last_at(s, c) {
        Some(i) => Some((s.take(i as int), s.skip(i as int + 1))),
        None => None,
    }
}

/// `rsplit_once` over `cs`.
pub fn rsplit_once_chars(cs: &Vec<char>, c: char) -> (r: Option<(Vec<char>, Vec<char>)>)
    ensures
        r matches Some(p) ==> rsplit_once(cs@, c) == Some((p.0@, p.1@)),
        r is None ==> rsplit_once(cs@, c) is None,
{
    let mut k: usize = cs.len();
    while k > 0 && cs[k - 1] != c
        invariant
            k <= cs.len(),
            forall|j: int| k <= j < cs.len() ==> cs@[j] != c,
        decreases k,
    {
        k = k - 1;
    }
    proof { lemma_last_at_is(cs@, c, k as int); }
    if k == 0 {
        return None;
    }
    let a = slice_chars(cs, 0, k - 1);
    let b = slice_chars(cs, k, cs.len());
    assert(a@ =~= cs@.take(k - 1));
    assert(b@ =~= cs@.skip(k as int));
    Some((a, b))
}

/// Whether `c` occurs in `cs`.
pub fn contains_char(cs: &Vec<char>, c: char) -> (b: bool)
    ensures
        b == (first_at(cs@, c) is Some),
{
    find_char(cs, c).is_some()
}

/// `char::to_ascii_lowercase` over every character.
pub open spec fn lower_ascii(s: Seq<char>) -> Seq<char> {
    s.map_values(|c: char| ascii_lower(c))
}

/// `str::eq_ignore_ascii_case` against an ASCII `t`.
pub fn eq_ignore_ascii_case(cs: &Vec<char>, t: &str) -> (b: bool)
    ensures
        b == (lower_ascii(cs@) == lower_ascii(t@)),
{
    let tc = chars_of(t);
    if cs.len() != tc.len() {
        assert(lower_ascii(cs@).len() != lower_ascii(t@).len());
        return false;
    }
    let mut i: usize = 0;
    while i < cs.len()
        invariant
            cs.len() == tc.len(),
            tc@ == t@,
            i <= cs.len(),
            forall|j: int| 0 <= j < i ==> ascii_lower(cs@[j]) == ascii_lower(tc@[j]),
        decreases cs.len() - i,
    {
        if to_ascii_lower(cs[i]) != to_ascii_lower(tc[i]) {
            assert(lower_ascii(cs@)[i as int] != lower_ascii(t@)[i as int]);
            return false;
        }
        i = i + 1;
    }
    assert(lower_ascii(cs@) =~= lower_ascii(t@));
    true
}

} // verus!
