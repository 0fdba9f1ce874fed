//! Character-level helpers shared by the renderers and parsers.
//!
//! Strings are handled as `Vec<char>` while they are built or scanned;
//! the spec functions here describe, over `Seq<char>`, what each helper
//! computes (whitespace, trimming, searching, line splitting, decimal
//! rendering).

use vstd::prelude::*;

verus! {

// ---------------------------------------------------------------------
// Conversions
// ---------------------------------------------------------------------

/// Collects the characters of `s` in order.
pub fn chars_of(s: &str) -> (out: Vec<char>)
    ensures
        out@ == s@,
{
    let mut out: Vec<char> = Vec::new();
    for c in it: s.chars()
        invariant
            out@ == it.seq().take(it.index() as int),
            it.seq() == s@,
    {
        out.push(c);
    }
    out
}

/// Builds a `String` holding exactly the characters of `cs`
/// (`String::from_iter` of std).
#[verifier::external_body]
pub(crate) fn string_from_chars(cs: &[char]) -> (s: String)
    ensures
        s@ == cs@,
{
    String::from_iter(cs.iter())
}

/// Appends the characters of `s` to `out`.
pub fn push_str(out: &mut Vec<char>, s: &str)
    ensures
        final(out)@ == old(out)@ + s@,
{
    let cs = chars_of(s);
    let ghost start = out@;
    for i in 0..cs.len()
        invariant
            out@ == start + cs@.take(i as int),
    {
        out.push(cs[i]);
        assert(cs@.take(i + 1) == cs@.take(i as int).push(cs@[i as int]));
    }
    assert(cs@.take(cs.len() as int) == cs@);
}

/// Whether two strings hold the same characters (`str == str`).
pub fn str_eq(a: &str, b: &str) -> (r: bool)
    ensures
        r == (a@ == b@),
{
    let x = chars_of(a);
    let y = chars_of(b);
    if x.len() != y.len() {
        return false;
    }
    let mut i: usize = 0;
    while i < x.len()
        invariant
            x@ == a@,
            y@ == b@,
            x@.len() == y@.len(),
            i <= x@.len(),
            forall|j: int| 0 <= j < i ==> x@[j] == y@[j],
        decreases x@.len() - i,
    {
        if x[i] != y[i] {
            assert(x@[i as int] != y@[i as int]);
            return false;
        }
        i = i + 1;
    }
    assert(x@ =~= y@);
    true
}

/// Appends `cs[lo..hi]` to `out`.
pub fn push_range(out: &mut Vec<char>, cs: &Vec<char>, lo: usize, hi: usize)
    requires
        lo <= hi <= cs.len(),
    ensures
        final(out)@ == old(out)@ + cs@.subrange(lo as int, hi as int),
{
    let ghost start = out@;
    let mut i = lo;
    while i < hi
        invariant
            lo <= i <= hi <= cs.len(),
            out@ == start + cs@.subrange(lo as int, i as int),
        decreases hi - i,
    {
        out.push(cs[i]);
        assert(cs@.subrange(lo as int, i + 1) == cs@.subrange(lo as int, i as int).push(
            cs@[i as int],
        ));
        i = i + 1;
    }
}

/// The `String` holding `cs[lo..hi]`.
pub fn string_of_range(cs: &Vec<char>, lo: usize, hi: usize) -> (s: String)
    requires
        lo <= hi <= cs.len(),
    ensures
        s@ == cs@.subrange(lo as int, hi as int),
{
    let mut out: Vec<char> = Vec::new();
    push_range(&mut out, cs, lo, hi);
    string_from_chars(out.as_slice())
}

// ---------------------------------------------------------------------
// Whitespace and trimming
// ---------------------------------------------------------------------

/// Unicode `White_Space`, the set `char::is_whitespace` tests.
pub open spec fn is_ws(c: char) -> bool {
    let u = c as u32;
    ||| 9 <= u <= 13
    ||| u == 32
    ||| u == 0x85
    ||| u == 0xa0
    ||| u == 0x1680
    ||| 0x2000 <= u <= 0x200a
    ||| u == 0x2028
    ||| u == 0x2029
    ||| u == 0x202f
    ||| u == 0x205f
    ||| u == 0x3000
}

/// Executable `is_ws`.
pub fn is_whitespace(c: char) -> (b: bool)
    ensures
        b == is_ws(c),
{
    let u = c as u32;
    (9 <= u && u <= 13) || u == 32 || u == 0x85 || u == 0xa0 || u == 0x1680 || (0x2000 <= u
        && u <= 0x200a) || u == 0x2028 || u == 0x2029 || u == 0x202f || u == 0x205f || u
        == 0x3000
}

/// `s` with leading whitespace removed.
pub open spec fn trim_start(s: Seq<char>) -> Seq<char>
    decreases s.len(),
{
    if s.len() > 0 && is_ws(s[0]) {
        trim_start(s.drop_first())
    } else {
        s
    }
}

/// `s` with trailing whitespace removed.
pub open spec fn trim_end(s: Seq<char>) -> Seq<char>
    decreases s.len(),
{
    if s.len() > 0 && is_ws(s.last()) {
        trim_end(s.drop_last())
    } else {
        s
    }
}

/// `s` with whitespace removed at both ends (`str::trim`).
pub open spec fn trim(s: Seq<char>) -> Seq<char> {
    trim_end(trim_start(s))
}

/// Whether every character of `s` is whitespace.
pub open spec fn all_ws(s: Seq<char>) -> bool {
    forall|i: int| 0 <= i < s.len() ==> is_ws(#[trigger] s[i])
}

/// The first index at or after `i` in `s[..hi]` that is not whitespace,
/// or `hi`.
pub open spec fn skip_ws(s: Seq<char>, i: int, hi: int) -> int
    decreases hi - i,
{
    if i < hi && is_ws(s[i]) {
        skip_ws(s, i + 1, hi)
    } else {
        i
    }
}

/// The end of `s[lo..i]` once trailing whitespace is removed.
pub open spec fn skip_ws_back(s: Seq<char>, lo: int, i: int) -> int
    decreases i - lo,
{
    if lo < i && is_ws(s[i - 1]) {
        skip_ws_back(s, lo, i - 1)
    } else {
        i
    }
}

pub proof fn lemma_skip_ws(s: Seq<char>, i: int, hi: int)
    requires
        0 <= i <= hi <= s.len(),
    ensures
        i <= skip_ws(s, i, hi) <= hi,
        trim_start(s.subrange(i, hi)) == s.subrange(skip_ws(s, i, hi), hi),
        all_ws(s.subrange(i, skip_ws(s, i, hi))),
    decreases hi - i,
{
    if i < hi && is_ws(s[i]) {
        lemma_skip_ws(s, i + 1, hi);
        assert(s.subrange(i, hi).drop_first() == s.subrange(i + 1, hi));
        let k = skip_ws(s, i, hi);
        assert forall|j: int| 0 <= j < k - i implies is_ws(#[trigger] s.subrange(i, k)[j]) by {
            if j > 0 {
                assert(s.subrange(i, k)[j] == s.subrange(i + 1, k)[j - 1]);
            }
        }
    } else {
        assert(s.subrange(i, i).len() == 0);
    }
}

pub proof fn lemma_skip_ws_back(s: Seq<char>, lo: int, i: int)
    requires
        0 <= lo <= i <= s.len(),
    ensures
        lo <= skip_ws_back(s, lo, i) <= i,
        trim_end(s.subrange(lo, i)) == s.subrange(lo, skip_ws_back(s, lo, i)),
        all_ws(s.subrange(skip_ws_back(s, lo, i), i)),
    decreases i - lo,
{
    if lo < i && is_ws(s[i - 1]) {
        lemma_skip_ws_back(s, lo, i - 1);
        assert(s.subrange(lo, i).drop_last() == s.subrange(lo, i - 1));
        let k = skip_ws_back(s, lo, i);
        assert forall|j: int| 0 <= j < i - k implies is_ws(#[trigger] s.subrange(k, i)[j]) by {
            if j < i - 1 - k {
                assert(s.subrange(k, i)[j] == s.subrange(k, i - 1)[j]);
            }
        }
    } else {
        assert(s.subrange(i, i).len() == 0);
    }
}

/// Trims `cs[lo..hi]`, returning the bounds of the trimmed range.
pub fn trim_bounds(cs: &Vec<char>, lo: usize, hi: usize) -> (r: (usize, usize))
    requires
        lo <= hi <= cs.len(),
    ensures
        lo <= r.0 <= r.1 <= hi,
        cs@.subrange(r.0 as int, r.1 as int) == trim(cs@.subrange(lo as int, hi as int)),
{
    let mut a = lo;
    while a < hi && is_whitespace(cs[a])
        invariant
            lo <= a <= hi <= cs.len(),
            skip_ws(cs@, lo as int, hi as int) == skip_ws(cs@, a as int, hi as int),
        decreases hi - a,
    {
        a = a + 1;
    }
    let mut b = hi;
    while b > a && is_whitespace(cs[b - 1])
        invariant
            lo <= a <= b <= hi <= cs.len(),
            skip_ws_back(cs@, a as int, hi as int) == skip_ws_back(cs@, a as int, b as int),
        decreases b - a,
    {
        b = b - 1;
    }
    proof {
        lemma_skip_ws(cs@, lo as int, hi as int);
        lemma_skip_ws_back(cs@, a as int, hi as int);
        assert(cs@.subrange(lo as int, hi as int).subrange(a - lo, hi - lo) == cs@.subrange(
            a as int,
            hi as int,
        ));
        lemma_trim_start_subrange(cs@, lo as int, hi as int);
    }
    (a, b)
}

pub proof fn lemma_trim_start_subrange(s: Seq<char>, lo: int, hi: int)
    requires
        0 <= lo <= hi <= s.len(),
    ensures
        trim_start(s.subrange(lo, hi)) == s.subrange(skip_ws(s, lo, hi), hi),
{
    lemma_skip_ws(s, lo, hi);
}

/// Whether `cs[lo..hi]` is empty once trimmed.
pub fn is_blank_range(cs: &Vec<char>, lo: usize, hi: usize) -> (b: bool)
    requires
        lo <= hi <= cs.len(),
    ensures
        b == (trim(cs@.subrange(lo as int, hi as int)).len() == 0),
{
    let (a, z) = trim_bounds(cs, lo, hi);
    a == z
}

// ---------------------------------------------------------------------
// Searching
// ---------------------------------------------------------------------

/// Whether `pat` occurs in `s` at index `i`.
pub open spec fn matches_at(s: Seq<char>, pat: Seq<char>, i: int) -> bool {
    0 <= i && i + pat.len() <= s.len() && s.subrange(i, i + pat.len()) == pat
}

/// The first index at or after `i` where `pat` occurs in `s`.
pub open spec fn find_from(s: Seq<char>, pat: Seq<char>, i: int) -> Option<int>
    decreases s.len() + 1 - i,
{
    if i < 0 || i + pat.len() > s.len() {
        None
    } else if matches_at(s, pat, i) {
        Some(i)
    } else {
        find_from(s, pat, i + 1)
    }
}

/// The first index where `pat` occurs in `s` (`str::find`).
pub open spec fn find(s: Seq<char>, pat: Seq<char>) -> Option<int> {
    find_from(s, pat, 0)
}

/// Whether `pat` occurs anywhere in `s` (`str::contains`).
pub open spec fn contains(s: Seq<char>, pat: Seq<char>) -> bool {
    find(s, pat) is Some
}

/// Whether `s` starts with `pat`.
pub open spec fn starts_with(s: Seq<char>, pat: Seq<char>) -> bool {
    pat.len() <= s.len() && s.subrange(0, pat.len() as int) == pat
}

pub proof fn lemma_find_from_bounds(s: Seq<char>, pat: Seq<char>, i: int)
    ensures
        find_from(s, pat, i) matches Some(k) ==> i <= k && matches_at(s, pat, k) && forall|
            j: int,
        | i <= j < k ==> !matches_at(s, pat, j),
    decreases s.len() + 1 - i,
{
    if i < 0 || i + pat.len() > s.len() {
    } else if matches_at(s, pat, i) {
    } else {
        lemma_find_from_bounds(s, pat, i + 1);
    }
}

pub proof fn lemma_find_from_none(s: Seq<char>, pat: Seq<char>, i: int)
    requires
        i >= 0,
    ensures
        find_from(s, pat, i) is None ==> forall|j: int| i <= j ==> !matches_at(s, pat, j),
    decreases s.len() + 1 - i,
{
    if i + pat.len() > s.len() {
    } else if matches_at(s, pat, i) {
    } else {
        lemma_find_from_none(s, pat, i + 1);
    }
}

/// Whether `pat` occurs in `cs[lo..hi]` at absolute index `i`.
pub fn matches_at_exec(cs: &Vec<char>, lo: usize, hi: usize, pat: &Vec<char>, i: usize) -> (b:
    bool)
    requires
        lo <= i <= hi <= cs.len(),
    ensures
        b == matches_at(cs@.subrange(lo as int, hi as int), pat@, i - lo),
{
    if pat.len() > hi - i {
        return false;
    }
    let mut k: usize = 0;
    while k < pat.len()
        invariant
            lo <= i <= hi <= cs.len(),
            pat.len() <= hi - i,
            k <= pat.len(),
            forall|j: int| 0 <= j < k ==> cs@[i + j] == pat@[j],
        decreases pat.len() - k,
    {
        if cs[i + k] != pat[k] {
            proof {
                let sub = cs@.subrange(lo as int, hi as int);
                assert(sub.subrange(i - lo, i - lo + pat.len())[k as int] == cs@[i + k]);
            }
            return false;
        }
        k = k + 1;
    }
    proof {
        let sub = cs@.subrange(lo as int, hi as int);
        assert(sub.subrange(i - lo, i - lo + pat.len()) =~= pat@);
    }
    true
}

/// The first absolute index in `cs[from..hi]` where `pat` occurs, searching
/// `cs[lo..hi]` from `from`.
pub fn find_exec(cs: &Vec<char>, lo: usize, hi: usize, pat: &Vec<char>, from: usize) -> (r:
    Option<usize>)
    requires
        lo <= from <= hi <= cs.len(),
    ensures
        r matches Some(k) ==> find_from(cs@.subrange(lo as int, hi as int), pat@, from - lo)
            == Some(k - lo) && lo <= k <= hi,
        r is None ==> find_from(cs@.subrange(lo as int, hi as int), pat@, from - lo) is None,
{
    let ghost sub = cs@.subrange(lo as int, hi as int);
    let mut i = from;
    loop
        invariant
            lo <= from <= i <= hi,
            hi <= cs.len(),
            find_from(sub, pat@, from - lo) == find_from(sub, pat@, i - lo),
            sub == cs@.subrange(lo as int, hi as int),
        decreases hi - i,
    {
        if pat.len() > hi - i {
            return None;
        }
        if matches_at_exec(cs, lo, hi, pat, i) {
            return Some(i);
        }
        if i == hi {
            assert(sub.subrange(i - lo, i - lo + pat@.len()) =~= pat@);
            return None;
        }
        i = i + 1;
    }
}

// ---------------------------------------------------------------------
// Lines
// ---------------------------------------------------------------------

/// `l` with one trailing `'\r'` removed, if present.
pub open spec fn strip_cr(l: Seq<char>) -> Seq<char> {
    if l.len() > 0 && l.last() == '\r' {
        l.drop_last()
    } else {
        l
    }
}

/// The first index at or after `i` of `'\n'` in `s`, or `s.len()`.
pub open spec fn next_nl(s: Seq<char>, i: int) -> int
    decreases s.len() - i,
{
    if i >= s.len() || i < 0 {
        s.len() as int
    } else if s[i] == '\n' {
        i
    } else {
        next_nl(s, i + 1)
    }
}

/// The lines of `s[i..]`, as `str::lines` yields them: split at `'\n'`,
/// a `'\r'` right before a `'\n'` removed, and no empty final line for a
/// trailing line ending.
pub open spec fn lines_from(s: Seq<char>, i: int) -> Seq<Seq<char>>
    decreases s.len() - i,
{
    if i < 0 || i >= s.len() {
        Seq::empty()
    } else {
        let e = next_nl(s, i);
        if e >= s.len() || e < i {
            seq![s.subrange(i, s.len() as int)]
        } else {
            seq![strip_cr(s.subrange(i, e))] + lines_from(s, e + 1)
        }
    }
}

/// The lines of `s` (`str::lines`).
pub open spec fn lines(s: Seq<char>) -> Seq<Seq<char>> {
    lines_from(s, 0)
}

pub proof fn lemma_next_nl(s: Seq<char>, i: int)
    requires
        0 <= i <= s.len(),
    ensures
        i <= next_nl(s, i) <= s.len(),
        next_nl(s, i) < s.len() ==> s[next_nl(s, i)] == '\n',
        forall|j: int| i <= j < next_nl(s, i) ==> s[j] != '\n',
    decreases s.len() - i,
{
    if i < s.len() && s[i] != '\n' {
        lemma_next_nl(s, i + 1);
    }
}

/// The bounds `(start, end)` in `cs` of each line of `cs`, as `lines` splits
/// it.
pub fn line_bounds(cs: &Vec<char>) -> (r: Vec<(usize, usize)>)
    ensures
        r@.len() == lines(cs@).len(),
        forall|k: int|
            0 <= k < r@.len() ==> {
                &&& (#[trigger] r@[k]).0 <= r@[k].1 <= cs@.len()
                &&& cs@.subrange(r@[k].0 as int, r@[k].1 as int) == lines(cs@)[k]
            },
{
    let mut r: Vec<(usize, usize)> = Vec::new();
    let mut i: usize = 0;
    let n = cs.len();
    while i < n
        invariant
            n == cs.len(),
            i <= n,
            lines(cs@) == r@.map_values(
                |p: (usize, usize)| cs@.subrange(p.0 as int, p.1 as int),
            ) + lines_from(cs@, i as int),
            forall|k: int|
                0 <= k < r@.len() ==> (#[trigger] r@[k]).0 <= r@[k].1 <= cs@.len(),
        decreases n - i,
    {
        let mut e = i;
        while e < n && cs[e] != '\n'
            invariant
                i <= e <= n,
                n == cs.len(),
                next_nl(cs@, i as int) == next_nl(cs@, e as int),
            decreases n - e,
        {
            e = e + 1;
        }
        let ghost before = r@;
        if e >= n {
            r.push((i, n));
            proof {
                assert(lines_from(cs@, n as int) == Seq::<Seq<char>>::empty());
                assert(r@.map_values(|p: (usize, usize)| cs@.subrange(p.0 as int, p.1 as int))
                    =~= before.map_values(
                    |p: (usize, usize)| cs@.subrange(p.0 as int, p.1 as int),
                ).push(cs@.subrange(i as int, n as int)));
            }
            i = n;
        } else {
            let end = if e > i && cs[e - 1] == '\r' {
                e - 1
            } else {
                e
            };
            r.push((i, end));
            proof {
                let l = cs@.subrange(i as int, e as int);
                if e > i && cs@[e - 1] == '\r' {
                    assert(strip_cr(l) =~= cs@.subrange(i as int, end as int));
                } else {
                    assert(strip_cr(l) == cs@.subrange(i as int, end as int));
                }
                assert(r@.map_values(|p: (usize, usize)| cs@.subrange(p.0 as int, p.1 as int))
                    =~= before.map_values(
                    |p: (usize, usize)| cs@.subrange(p.0 as int, p.1 as int),
                ).push(cs@.subrange(i as int, end as int)));
            }
            i = e + 1;
        }
    }
    proof {
        assert(lines_from(cs@, i as int) == Seq::<Seq<char>>::empty());
        assert forall|k: int| 0 <= k < r@.len() implies cs@.subrange(
            (#[trigger] r@[k]).0 as int,
            r@[k].1 as int,
        ) == lines(cs@)[k] by {
            assert(lines(cs@)[k] == r@.map_values(
                |p: (usize, usize)| cs@.subrange(p.0 as int, p.1 as int),
            )[k]);
        }
    }
    r
}

// ---------------------------------------------------------------------
// Decimal numbers
// ---------------------------------------------------------------------

/// The decimal digit character for `d < 10`.
pub open spec fn digit(d: nat) -> char {
    if d == 0 {
        '0'
    } else if d == 1 {
        '1'
    } else if d == 2 {
        '2'
    } else if d == 3 {
        '3'
    } else if d == 4 {
        '4'
    } else if d == 5 {
        '5'
    } else if d == 6 {
        '6'
    } else if d == 7 {
        '7'
    } else if d == 8 {
        '8'
    } else {
        '9'
    }
}

/// The value of a digit character, if it is one.
pub open spec fn digit_value(c: char) -> Option<nat> {
    if '0' <= c && c <= '9' {
        Some((c as u32 - '0' as u32) as nat)
    } else {
        None
    }
}

/// Decimal rendering of `n`, without leading zeros (`{}` of an integer).
pub open spec fn dec(n: nat) -> Seq<char>
    decreases n,
{
    if n < 10 {
        seq![digit(n)]
    } else {
        dec(n / 10).push(digit(n % 10))
    }
}

/// Decimal rendering of `n` left-padded with zeros to two digits (`{:02}`).
pub open spec fn dec2(n: nat) -> Seq<char> {
    if n < 10 {
        seq!['0', digit(n)]
    } else {
        dec(n)
    }
}

/// Decimal rendering of `n` left-padded with zeros to four digits (`{:04}`).
pub open spec fn dec4(n: nat) -> Seq<char> {
    if n < 10 {
        seq!['0', '0', '0', digit(n)]
    } else if n < 100 {
        seq!['0', '0'] + dec(n)
    } else if n < 1000 {
        seq!['0'] + dec(n)
    } else {
        dec(n)
    }
}

/// Executable `digit`.
pub fn digit_char(d: u64) -> (c: char)
    requires
        d < 10,
    ensures
        c == digit(d as nat),
{
    if d == 0 {
        '0'
    } else if d == 1 {
        '1'
    } else if d == 2 {
        '2'
    } else if d == 3 {
        '3'
    } else if d == 4 {
        '4'
    } else if d == 5 {
        '5'
    } else if d == 6 {
        '6'
    } else if d == 7 {
        '7'
    } else if d == 8 {
        '8'
    } else {
        '9'
    }
}

/// Appends `dec(n)` to `out`.
pub fn push_dec(out: &mut Vec<char>, n: u64)
    ensures
        final(out)@ == old(out)@ + dec(n as nat),
    decreases n,
{
    if n < 10 {
        out.push(digit_char(n));
        assert(dec(n as nat) == seq![digit(n as nat)]);
    } else {
        push_dec(out, n / 10);
        out.push(digit_char(n % 10));
        assert(dec(n as nat) == dec((n / 10) as nat).push(digit((n % 10) as nat)));
    }
}

/// Appends `dec2(n)` to `out`.
pub fn push_dec2(out: &mut Vec<char>, n: u64)
    ensures
        final(out)@ == old(out)@ + dec2(n as nat),
{
    if n < 10 {
        out.push('0');
        out.push(digit_char(n));
    } else {
        push_dec(out, n);
    }
}

/// Appends `dec4(n)` to `out`.
pub fn push_dec4(out: &mut Vec<char>, n: u64)
    ensures
        final(out)@ == old(out)@ + dec4(n as nat),
{
    if n < 10 {
        out.push('0');
        out.push('0');
        out.push('0');
        out.push(digit_char(n));
    } else if n < 100 {
        out.push('0');
        out.push('0');
        push_dec(out, n);
    } else if n < 1000 {
        out.push('0');
        push_dec(out, n);
    } else {
        push_dec(out, n);
    }
}

// ---------------------------------------------------------------------
// Joining
// ---------------------------------------------------------------------

/// `parts` joined with `sep` between consecutive parts (`[T]::join`).
pub open spec fn join(parts: Seq<Seq<char>>, sep: Seq<char>) -> Seq<char>
    decreases parts.len(),
{
    if parts.len() == 0 {
        Seq::empty()
    } else if parts.len() == 1 {
        parts[0]
    } else {
        join(parts.drop_last(), sep) + sep + parts.last()
    }
}

/// The character views of a vector of strings.
pub open spec fn views(v: Seq<String>) -> Seq<Seq<char>> {
    v.map_values(|s: String| s@)
}

/// Appends `items` joined with `sep` to `out`.
pub fn push_joined(out: &mut Vec<char>, items: &Vec<String>, sep: &str)
    ensures
        final(out)@ == old(out)@ + join(views(items@), sep@),
{
    let ghost start = out@;
    let mut i: usize = 0;
    while i < items.len()
        invariant
            i <= items@.len(),
            out@ == start + join(views(items@.take(i as int)), sep@),
        decreases items@.len() - i,
    {
        let ghost before = out@;
        if i > 0 {
            push_str(out, sep);
        }
        push_str(out, items[i].as_str());
        proof {
            let p = views(items@.take(i + 1));
            assert(p.drop_last() == views(items@.take(i as int)));
            assert(p.last() == items@[i as int]@);
            if i == 0 {
                assert(join(views(items@.take(0)), sep@) == Seq::<char>::empty());
                assert(p.len() == 1);
                assert(out@ =~= start + join(p, sep@));
            } else {
                assert(out@ =~= start + join(p, sep@));
            }
        }
        i = i + 1;
    }
    assert(items@.take(items@.len() as int) == items@);
}


// ---------------------------------------------------------------------
// Splitting
// ---------------------------------------------------------------------

/// The pieces of `s` between occurrences of `sep` (`str::split(sep)`).
pub open spec fn split_char(s: Seq<char>, sep: char) -> Seq<Seq<char>>
    decreases s.len(),
{
    match find(s, seq![sep]) {
        None => seq![s],
        Some(k) => if 0 <= k < s.len() {
            seq![s.subrange(0, k)] + split_char(s.subrange(k + 1, s.len() as int), sep)
        } else {
            seq![s]
        },
    }
}

/// Splits `cs[lo..hi]` at `sep`, returning the bounds of each piece.
pub fn split_char_range(cs: &Vec<char>, lo: usize, hi: usize, sep: char) -> (r: Vec<(usize, usize)>)
    requires
        lo <= hi <= cs.len(),
    ensures
        r@.len() == split_char(cs@.subrange(lo as int, hi as int), sep).len(),
        forall|k: int|
            0 <= k < r@.len() ==> {
                &&& lo <= (#[trigger] r@[k]).0 <= r@[k].1 <= hi
                &&& cs@.subrange(r@[k].0 as int, r@[k].1 as int) == split_char(
                    cs@.subrange(lo as int, hi as int),
                    sep,
                )[k]
            },
    decreases hi - lo,
{
    let mut pat: Vec<char> = Vec::new();
    pat.push(sep);
    assert(pat@ == seq![sep]);
    let ghost s = cs@.subrange(lo as int, hi as int);
    match find_exec(cs, lo, hi, &pat, lo) {
        None => {
            let mut r: Vec<(usize, usize)> = Vec::new();
            r.push((lo, hi));
            r
        },
        Some(k) => {
            proof {
                lemma_find_from_bounds(s, pat@, 0);
            }
            let rest = split_char_range(cs, k + 1, hi, sep);
            let mut r: Vec<(usize, usize)> = Vec::new();
            r.push((lo, k));
            let mut i: usize = 0;
            while i < rest.len()
                invariant
                    i <= rest@.len(),
                    r@.len() == i + 1,
                    r@[0] == (lo, k),
                    forall|j: int| 1 <= j < r@.len() ==> r@[j] == rest@[j - 1],
                decreases rest.len() - i,
            {
                r.push(rest[i]);
                i = i + 1;
            }
            proof {
                assert(s.subrange(k - lo + 1, s.len() as int) == cs@.subrange(
                    k + 1,
                    hi as int,
                ));
                assert(s.subrange(0, k - lo) == cs@.subrange(lo as int, k as int));
                let sp = split_char(s, sep);
                assert(find(s, seq![sep]) == Some(k - lo));
                assert(0 <= k - lo < s.len());
                assert(sp == seq![s.subrange(0, k - lo)] + split_char(
                    s.subrange(k - lo + 1, s.len() as int),
                    sep,
                ));
                assert(sp.len() == r@.len());
                assert(sp[0] == cs@.subrange(lo as int, k as int));
                assert forall|j: int| 0 <= j < r@.len() implies {
                    &&& lo <= (#[trigger] r@[j]).0 <= r@[j].1 <= hi
                    &&& cs@.subrange(r@[j].0 as int, r@[j].1 as int) == sp[j]
                } by {
                    if j > 0 {
                        assert(r@[j] == rest@[j - 1]);
                        assert(sp[j] == split_char(cs@.subrange(k + 1, hi as int), sep)[j - 1]);
                    }
                }
            }
            r
        },
    }
}

// ---------------------------------------------------------------------
// Replacing
// ---------------------------------------------------------------------

/// `s` with every non-overlapping occurrence of a nonempty `pat`,
/// scanning left to right, replaced by `with` (`str::replace`).
pub open spec fn replace_all(s: Seq<char>, pat: Seq<char>, with: Seq<char>) -> Seq<char>
    decreases s.len(),
{
    if pat.len() == 0 {
        s
    } else {
        match find(s, pat) {
            None => s,
            Some(k) => if 0 <= k && k + pat.len() <= s.len() {
                s.subrange(0, k) + with + replace_all(
                    s.subrange(k + pat.len(), s.len() as int),
                    pat,
                    with,
                )
            } else {
                s
            },
        }
    }
}

/// Appends `replace_all(cs[lo..hi], pat, with)` to `out`.
pub fn push_replaced(out: &mut Vec<char>, cs: &Vec<char>, lo: usize, hi: usize, pat: &Vec<char>, with: &str)
    requires
        lo <= hi <= cs.len(),
        pat@.len() > 0,
    ensures
        final(out)@ == old(out)@ + replace_all(cs@.subrange(lo as int, hi as int), pat@, with@),
    decreases hi - lo,
{
    let ghost s = cs@.subrange(lo as int, hi as int);
    match find_exec(cs, lo, hi, pat, lo) {
        None => {
            push_range(out, cs, lo, hi);
        },
        Some(k) => {
            proof {
                lemma_find_from_bounds(s, pat@, 0);
            }
            let ghost before = out@;
            push_range(out, cs, lo, k);
            push_str(out, with);
            let after = k + pat.len();
            proof {
                assert(s.subrange(0, k - lo) == cs@.subrange(lo as int, k as int));
                assert(s.subrange(k - lo + pat@.len(), s.len() as int) == cs@.subrange(
                    after as int,
                    hi as int,
                ));
            }
            push_replaced(out, cs, after, hi, pat, with);
            assert(final(out)@ =~= before + replace_all(s, pat@, with@)) by {
                assert(out@ =~= before + cs@.subrange(lo as int, k as int) + with@ + replace_all(
                    cs@.subrange(after as int, hi as int),
                    pat@,
                    with@,
                ));
            }
        },
    }
}

/// `s` with every occurrence of `pat` replaced by `with`.
pub fn replace_str(s: &str, pat: &str, with: &str) -> (r: String)
    requires
        pat@.len() > 0,
    ensures
        r@ == replace_all(s@, pat@, with@),
{
    let cs = chars_of(s);
    let p = chars_of(pat);
    let mut out: Vec<char> = Vec::new();
    push_replaced(&mut out, &cs, 0, cs.len(), &p, with);
    assert(cs@.subrange(0, cs@.len() as int) == cs@);
    string_from_chars(out.as_slice())
}

/// Whether `needle` occurs in `hay` (`str::contains`).
pub fn contains_str(hay: &str, needle: &str) -> (b: bool)
    ensures
        b == contains(hay@, needle@),
{
    let cs = chars_of(hay);
    let p = chars_of(needle);
    proof {
        assert(cs@.subrange(0, cs@.len() as int) == cs@);
    }
    find_exec(&cs, 0, cs.len(), &p, 0).is_some()
}

/// Whether `s` holds the character `c`.
pub fn has_char(s: &str, c: char) -> (b: bool)
    ensures
        b == (exists|i: int| 0 <= i < s@.len() && s@[i] == c),
{
    let cs = chars_of(s);
    let mut i: usize = 0;
    while i < cs.len()
        invariant
            i <= cs@.len(),
            cs@ == s@,
            forall|j: int| 0 <= j < i ==> cs@[j] != c,
        decreases cs@.len() - i,
    {
        if cs[i] == c {
            return true;
        }
        i = i + 1;
    }
    false
}

/// The text `str::to_lowercase` gives for `s` (Unicode lowercase mapping).
pub uninterp spec fn str_lowercase(s: Seq<char>) -> Seq<char>;

/// `s.to_lowercase()` (std): claims only that the result is the
/// lowercase mapping of `s`.
#[verifier::external_body]
pub(crate) fn to_lowercase(s: &str) -> (r: String)
    ensures
        r@ == str_lowercase(s@),
{
    s.to_lowercase()
}

// ---------------------------------------------------------------------
// Ordering
// ---------------------------------------------------------------------

/// `a` sorts at or before `b`, character by character (the byte order of
/// their UTF-8 encodings, which `String`'s ordering uses).
pub open spec fn text_le(a: Seq<char>, b: Seq<char>) -> bool
    decreases a.len(),
{
    if a.len() == 0 {
        true
    } else if b.len() == 0 {
        false
    } else if a[0] != b[0] {
        a[0] < b[0]
    } else {
        text_le(a.drop_first(), b.drop_first())
    }
}

pub proof fn lemma_text_le_total(a: Seq<char>, b: Seq<char>)
    ensures
        text_le(a, b) || text_le(b, a),
    decreases a.len(),
{
    if a.len() > 0 && b.len() > 0 && a[0] == b[0] {
        lemma_text_le_total(a.drop_first(), b.drop_first());
    }
}

pub proof fn lemma_text_le_trans(a: Seq<char>, b: Seq<char>, c: Seq<char>)
    requires
        text_le(a, b),
        text_le(b, c),
    ensures
        text_le(a, c),
    decreases a.len(),
{
    if a.len() > 0 && b.len() > 0 && c.len() > 0 && a[0] == b[0] && b[0] == c[0] {
        lemma_text_le_trans(a.drop_first(), b.drop_first(), c.drop_first());
    }
}


pub proof fn lemma_text_le_refl(a: Seq<char>)
    ensures
        text_le(a, a),
    decreases a.len(),
{
    if a.len() > 0 {
        lemma_text_le_refl(a.drop_first());
    }
}

pub proof fn lemma_text_le_antisym(a: Seq<char>, b: Seq<char>)
    requires
        text_le(a, b),
        text_le(b, a),
    ensures
        a == b,
    decreases a.len(),
{
    if a.len() > 0 && b.len() > 0 {
        lemma_text_le_antisym(a.drop_first(), b.drop_first());
        assert(a =~= seq![a[0]] + a.drop_first());
        assert(b =~= seq![b[0]] + b.drop_first());
    } else {
        assert(a =~= b);
    }
}

pub fn text_le_exec(a: &str, b: &str) -> (r: bool)
    ensures
        r == text_le(a@, b@),
{
    let x = chars_of(a);
    let y = chars_of(b);
    let mut i: usize = 0;
    assert(a@.skip(0) =~= a@);
    assert(b@.skip(0) =~= b@);
    while i < x.len() && i < y.len() && x[i] == y[i]
        invariant
            i <= x@.len(),
            i <= y@.len(),
            x@ == a@,
            y@ == b@,
            text_le(a@, b@) == text_le(a@.skip(i as int), b@.skip(i as int)),
        decreases x@.len() - i,
    {
        assert(a@.skip(i as int).drop_first() =~= a@.skip(i + 1));
        assert(b@.skip(i as int).drop_first() =~= b@.skip(i + 1));
        i = i + 1;
    }
    if i == x.len() {
        assert(a@.skip(i as int).len() == 0);
        true
    } else if i == y.len() {
        assert(b@.skip(i as int).len() == 0);
        false
    } else {
        assert(a@.skip(i as int)[0] == x@[i as int]);
        assert(b@.skip(i as int)[0] == y@[i as int]);
        x[i] < y[i]
    }
}

} // verus!
