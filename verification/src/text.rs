//! Character-sequence utilities: conversions between `String`/`&str` and
//! `Vec<char>`, trimming, searching and splitting. The codec and the path
//! rules are all written over these.
use vstd::prelude::*;

verus! {

/// The Unicode `White_Space` characters, the set that `char::is_whitespace`
/// reports.
pub open spec fn is_space_char(c: char) -> bool {
    c == '\u{0009}' || c == '\u{000A}' || c == '\u{000B}' || c == '\u{000C}' || c == '\u{000D}'
        || c == '\u{0020}' || c == '\u{0085}' || c == '\u{00A0}' || c == '\u{1680}'
        || c == '\u{2000}' || c == '\u{2001}' || c == '\u{2002}' || c == '\u{2003}'
        || c == '\u{2004}' || c == '\u{2005}' || c == '\u{2006}' || c == '\u{2007}'
        || c == '\u{2008}' || c == '\u{2009}' || c == '\u{200A}' || c == '\u{2028}'
        || c == '\u{2029}' || c == '\u{202F}' || c == '\u{205F}' || c == '\u{3000}'
}

/// Relies on `char::is_whitespace`: true exactly on the Unicode `White_Space`
/// characters, which `is_space_char` lists in full.
pub assume_specification[ char::is_whitespace ](c: char) -> (r: bool)
    ensures
        r == is_space_char(c),
;

/// Relies on `String::push`: appends one character at the end.
#[verifier::external_body]
pub(crate) fn push_char(s: &mut String, c: char)
    ensures
        final(s)@ == old(s)@.push(c),
{
    s.push(c);
}

/// The characters of a string slice, as a vector.
pub fn chars_of(s: &str) -> (r: Vec<char>)
    ensures
        r@ == s@,
{
    let n = s.unicode_len();
    let mut r: Vec<char> = Vec::new();
    let mut i: usize = 0;
    while i < n
        invariant
            i <= n,
            n == s@.len(),
            r@ == s@.subrange(0, i as int),
        decreases n - i,
    {
        r.push(s.get_char(i));
        i = i + 1;
        proof {
            assert(r@ =~= s@.subrange(0, i as int));
        }
    }
    proof {
        assert(r@ =~= s@);
    }
    r
}

/// The string made of the given characters.
pub fn string_of(v: &Vec<char>) -> (r: String)
    ensures
        r@ == v@,
{
    let mut r = String::new();
    let mut i: usize = 0;
    while i < v.len()
        invariant
            i <= v.len(),
            r@ == v@.subrange(0, i as int),
        decreases v.len() - i,
    {
        push_char(&mut r, v[i]);
        i = i + 1;
        proof {
            assert(r@ =~= v@.subrange(0, i as int));
        }
    }
    proof {
        assert(r@ =~= v@);
    }
    r
}

/// Character-by-character equality of two vectors.
pub fn vec_eq(a: &Vec<char>, b: &Vec<char>) -> (r: bool)
    ensures
        r == (a@ == b@),
{
    if a.len() != b.len() {
        proof {
            assert(a@ != b@);
        }
        return false;
    }
    let mut i: usize = 0;
    while i < a.len()
        invariant
            i <= a.len(),
            a@.len() == b@.len(),
            forall|j: int| 0 <= j < i ==> a@[j] == b@[j],
        decreases a.len() - i,
    {
        if a[i] != b[i] {
            return false;
        }
        i = i + 1;
    }
    proof {
        assert(a@ =~= b@);
    }
    true
}

/// Character-by-character equality of two string slices.
pub fn str_eq(a: &str, b: &str) -> (r: bool)
    ensures
        r == (a@ == b@),
{
    let na = a.unicode_len();
    let nb = b.unicode_len();
    if na != nb {
        proof {
            assert(a@ != b@);
        }
        return false;
    }
    let mut i: usize = 0;
    while i < na
        invariant
            i <= na,
            na == a@.len(),
            a@.len() == b@.len(),
            forall|j: int| 0 <= j < i ==> a@[j] == b@[j],
        decreases na - i,
    {
        if a.get_char(i) != b.get_char(i) {
            return false;
        }
        i = i + 1;
    }
    proof {
        assert(a@ =~= b@);
    }
    true
}

/// The characters of `v` from `from` (inclusive) to `to` (exclusive).
pub fn subvec(v: &Vec<char>, from: usize, to: usize) -> (r: Vec<char>)
    requires
        from <= to <= v@.len(),
    ensures
        r@ == v@.subrange(from as int, to as int),
{
    let mut r: Vec<char> = Vec::new();
    let mut i: usize = from;
    while i < to
        invariant
            from <= i <= to <= v@.len(),
            r@ == v@.subrange(from as int, i as int),
        decreases to - i,
    {
        r.push(v[i]);
        i = i + 1;
        proof {
            assert(r@ =~= v@.subrange(from as int, i as int));
        }
    }
    r
}

/// Appends all characters of `src` to `dst`.
pub fn extend_chars(dst: &mut Vec<char>, src: &Vec<char>)
    ensures
        final(dst)@ == old(dst)@ + src@,
{
    let mut i: usize = 0;
    while i < src.len()
        invariant
            i <= src.len(),
            dst@ == old(dst)@ + src@.subrange(0, i as int),
        decreases src.len() - i,
    {
        dst.push(src[i]);
        i = i + 1;
        proof {
            assert(dst@ =~= old(dst)@ + src@.subrange(0, i as int));
        }
    }
    proof {
        assert(dst@ =~= old(dst)@ + src@);
    }
}

/// Appends the characters of a string slice to `dst`.
pub fn extend_str(dst: &mut Vec<char>, src: &str)
    ensures
        final(dst)@ == old(dst)@ + src@,
{
    let n = src.unicode_len();
    let mut i: usize = 0;
    while i < n
        invariant
            i <= n,
            n == src@.len(),
            dst@ == old(dst)@ + src@.subrange(0, i as int),
        decreases n - i,
    {
        dst.push(src.get_char(i));
        i = i + 1;
        proof {
            assert(dst@ =~= old(dst)@ + src@.subrange(0, i as int));
        }
    }
    proof {
        assert(dst@ =~= old(dst)@ + src@);
    }
}

/// `s` with leading white space removed.
pub open spec fn spec_trim_start(s: Seq<char>) -> Seq<char>
    decreases s.len(),
{
    if s.len() > 0 && is_space_char(s[0]) {
        spec_trim_start(s.skip(1))
    } else {
        s
    }
}

/// `s` with trailing white space removed.
pub open spec fn spec_trim_end(s: Seq<char>) -> Seq<char>
    decreases s.len(),
{
    if s.len() > 0 && is_space_char(s.last()) {
        spec_trim_end(s.drop_last())
    } else {
        s
    }
}

/// `s` with leading and trailing white space removed.
pub open spec fn spec_trim(s: Seq<char>) -> Seq<char> {
    spec_trim_end(spec_trim_start(s))
}

proof fn lemma_trim_start_skip(s: Seq<char>, k: int)
    requires
        0 <= k <= s.len(),
        forall|m: int| 0 <= m < k ==> is_space_char(s[m]),
    ensures
        spec_trim_start(s) == spec_trim_start(s.skip(k)),
    decreases k,
{
    if k == 0 {
        assert(s.skip(0) =~= s);
    } else {
        assert(is_space_char(s[0]));
        lemma_trim_start_skip(s.skip(1), k - 1);
        assert(s.skip(1).skip(k - 1) =~= s.skip(k));
    }
}

proof fn lemma_trim_end_take(s: Seq<char>, k: int)
    requires
        0 <= k <= s.len(),
        forall|m: int| k <= m < s.len() ==> is_space_char(s[m]),
    ensures
        spec_trim_end(s) == spec_trim_end(s.take(k)),
    decreases s.len() - k,
{
    if k == s.len() {
        assert(s.take(k) =~= s);
    } else {
        assert(is_space_char(s.last()));
        lemma_trim_end_take(s.drop_last(), k);
        assert(s.drop_last().take(k) =~= s.take(k));
    }
}

/// The characters of `v` with leading and trailing white space removed.
pub fn trim_vec(v: &Vec<char>) -> (r: Vec<char>)
    ensures
        r@ == spec_trim(v@),
{
    let n = v.len();
    let mut i: usize = 0;
    while i < n && v[i].is_whitespace()
        invariant
            i <= n,
            n == v@.len(),
            forall|m: int| 0 <= m < i ==> is_space_char(v@[m]),
        decreases n - i,
    {
        i = i + 1;
    }
    let mut j: usize = n;
    while j > i && v[j - 1].is_whitespace()
        invariant
            i <= j <= n,
            n == v@.len(),
            forall|m: int| j <= m < n ==> is_space_char(v@[m]),
        decreases j,
    {
        j = j - 1;
    }
    let r = subvec(v, i, j);
    proof {
        lemma_trim_start_skip(v@, i as int);
        if i < n {
            // the scan stopped on a non-space character, so nothing more is
            // stripped from the front
            assert(!is_space_char(v@.skip(i as int)[0]));
        }
        assert(spec_trim_start(v@) == v@.skip(i as int));
        lemma_trim_end_take(v@.skip(i as int), j - i);
        if j > i {
            assert(!is_space_char(v@.skip(i as int).take(j - i).last()));
        }
        assert(v@.skip(i as int).take(j - i) =~= v@.subrange(i as int, j as int));
        assert(spec_trim(v@) == v@.subrange(i as int, j as int));
    }
    r
}

/// True when `pat` occurs in `s` starting at position `i`.
pub open spec fn match_at(s: Seq<char>, pat: Seq<char>, i: int) -> bool {
    0 <= i && i + pat.len() <= s.len() && s.subrange(i, i + pat.len()) == pat
}

/// True when `pat` occurs somewhere in `s`.
pub open spec fn has_sub(s: Seq<char>, pat: Seq<char>) -> bool {
    exists|i: int| match_at(s, pat, i)
}

/// The position of the first occurrence of `pat` in `s`, if any.
pub open spec fn spec_find_sub(s: Seq<char>, pat: Seq<char>) -> Option<int>
    decreases s.len(),
{
    if pat.len() == 0 {
        Some(0)
    } else if s.len() < pat.len() {
        None
    } else if s.subrange(0, pat.len() as int) == pat {
        Some(0)
    } else {
        match spec_find_sub(s.skip(1), pat) {
            None => None,
            Some(i) => Some(i + 1),
        }
    }
}

proof fn lemma_match_skip(s: Seq<char>, pat: Seq<char>, i: int)
    requires
        s.len() >= 1,
        i >= 0,
    ensures
        match_at(s.skip(1), pat, i) <==> match_at(s, pat, i + 1),
{
    if i + pat.len() <= s.len() - 1 {
        assert(s.skip(1).subrange(i, i + pat.len()) =~= s.subrange(i + 1, i + 1 + pat.len()));
    }
}

/// `spec_find_sub` returns the least position where `pat` matches, or `None`
/// when it matches nowhere.
pub proof fn lemma_find_sub(s: Seq<char>, pat: Seq<char>)
    ensures
        spec_find_sub(s, pat) is None ==> forall|i: int| !match_at(s, pat, i),
        spec_find_sub(s, pat) matches Some(i) ==> match_at(s, pat, i) && (forall|j: int|
            0 <= j < i ==> !match_at(s, pat, j)),
    decreases s.len(),
{
    if pat.len() == 0 {
        assert(s.subrange(0, 0) =~= pat);
        assert(match_at(s, pat, 0));
    } else if s.len() < pat.len() {
        assert(forall|i: int| !match_at(s, pat, i));
    } else if s.subrange(0, pat.len() as int) == pat {
        assert(match_at(s, pat, 0));
    } else {
        lemma_find_sub(s.skip(1), pat);
        match spec_find_sub(s.skip(1), pat) {
            None => {
                assert forall|i: int| !match_at(s, pat, i) by {
                    if i > 0 {
                        lemma_match_skip(s, pat, i - 1);
                        assert(!match_at(s.skip(1), pat, i - 1));
                    }
                }
            },
            Some(k) => {
                lemma_match_skip(s, pat, k);
                assert(match_at(s, pat, k + 1));
                assert forall|j: int| 0 <= j < k + 1 implies !match_at(s, pat, j) by {
                    if j > 0 {
                        lemma_match_skip(s, pat, j - 1);
                        assert(!match_at(s.skip(1), pat, j - 1));
                    }
                }
            },
        }
    }
}

/// True when the characters of `v` starting at `i` are exactly `pat`.
pub fn matches_at(v: &Vec<char>, pat: &Vec<char>, i: usize) -> (r: bool)
    requires
        i + pat@.len() <= v@.len(),
    ensures
        r == match_at(v@, pat@, i as int),
{
    let n = v.len();
    let m = pat.len();
    let mut j: usize = 0;
    while j < m
        invariant
            j <= m,
            m == pat@.len(),
            n == v@.len(),
            i + m <= n,
            forall|k: int| 0 <= k < j ==> v@[i + k] == pat@[k],
        decreases m - j,
    {
        if v[i + j] != pat[j] {
            proof {
                assert(v@.subrange(i as int, i + pat@.len())[j as int] == v@[i + j]);
            }
            return false;
        }
        j = j + 1;
    }
    proof {
        assert(v@.subrange(i as int, i + pat@.len()) =~= pat@);
    }
    true
}

/// The position of the first occurrence of `pat` in `v`, if any.
pub fn find_sub(v: &Vec<char>, pat: &Vec<char>) -> (r: Option<usize>)
    ensures
        r is Some <==> spec_find_sub(v@, pat@) is Some,
        r matches Some(i) ==> spec_find_sub(v@, pat@) == Some(i as int) && i + pat@.len()
            <= v@.len(),
{
    proof {
        lemma_find_sub(v@, pat@);
    }
    if pat.len() == 0 {
        return Some(0);
    }
    if pat.len() > v.len() {
        proof {
            assert(forall|i: int| !match_at(v@, pat@, i));
        }
        return None;
    }
    let n = v.len();
    let m = pat.len();
    let last = n - m;
    let mut i: usize = 0;
    while i <= last
        invariant
            i <= last + 1,
            n == v@.len(),
            m == pat@.len(),
            1 <= m <= n,
            last == n - m,
            forall|j: int| 0 <= j < i ==> !match_at(v@, pat@, j),
        decreases last + 1 - i,
    {
        if matches_at(v, pat, i) {
            proof {
                lemma_find_sub(v@, pat@);
                assert(match_at(v@, pat@, i as int));
                assert(spec_find_sub(v@, pat@) is Some);
                if let Some(k) = spec_find_sub(v@, pat@) {
                    assert(match_at(v@, pat@, k));
                    assert(k == i as int);
                }
            }
            return Some(i);
        }
        i = i + 1;
    }
    proof {
        lemma_find_sub(v@, pat@);
    }
    proof {
        assert forall|j: int| !match_at(v@, pat@, j) by {
            if 0 <= j < i {
            } else {
                assert(!(0 <= j && j + pat@.len() <= v@.len()));
            }
        }
    }
    None
}

/// `s` with every leading occurrence of `c` removed.
pub open spec fn spec_strip_lead(s: Seq<char>, c: char) -> Seq<char>
    decreases s.len(),
{
    if s.len() > 0 && s[0] == c {
        spec_strip_lead(s.skip(1), c)
    } else {
        s
    }
}

/// `s` with every trailing occurrence of `c` removed.
pub open spec fn spec_strip_trail(s: Seq<char>, c: char) -> Seq<char>
    decreases s.len(),
{
    if s.len() > 0 && s.last() == c {
        spec_strip_trail(s.drop_last(), c)
    } else {
        s
    }
}

/// What `str::trim_matches` leaves with a single-character pattern: `s` with
/// every leading and trailing occurrence of `c` removed.
pub open spec fn spec_trim_matches(s: Seq<char>, c: char) -> Seq<char> {
    spec_strip_trail(spec_strip_lead(s, c), c)
}

proof fn lemma_strip_lead_skip(s: Seq<char>, c: char, k: int)
    requires
        0 <= k <= s.len(),
        forall|m: int| 0 <= m < k ==> s[m] == c,
    ensures
        spec_strip_lead(s, c) == spec_strip_lead(s.skip(k), c),
    decreases k,
{
    if k == 0 {
        assert(s.skip(0) =~= s);
    } else {
        lemma_strip_lead_skip(s.skip(1), c, k - 1);
        assert(s.skip(1).skip(k - 1) =~= s.skip(k));
    }
}

proof fn lemma_strip_trail_take(s: Seq<char>, c: char, k: int)
    requires
        0 <= k <= s.len(),
        forall|m: int| k <= m < s.len() ==> s[m] == c,
    ensures
        spec_strip_trail(s, c) == spec_strip_trail(s.take(k), c),
    decreases s.len() - k,
{
    if k == s.len() {
        assert(s.take(k) =~= s);
    } else {
        lemma_strip_trail_take(s.drop_last(), c, k);
        assert(s.drop_last().take(k) =~= s.take(k));
    }
}

/// The characters of `v` with every leading and trailing occurrence of `c`
/// removed.
pub fn trim_matches_vec(v: &Vec<char>, c: char) -> (r: Vec<char>)
    ensures
        r@ == spec_trim_matches(v@, c),
{
    let n = v.len();
    let mut i: usize = 0;
    while i < n && v[i] == c
        invariant
            i <= n,
            n == v@.len(),
            forall|m: int| 0 <= m < i ==> v@[m] == c,
        decreases n - i,
    {
        i = i + 1;
    }
    let mut j: usize = n;
    while j > i && v[j - 1] == c
        invariant
            i <= j <= n,
            n == v@.len(),
            forall|m: int| j <= m < n ==> v@[m] == c,
        decreases j,
    {
        j = j - 1;
    }
    let r = subvec(v, i, j);
    proof {
        lemma_strip_lead_skip(v@, c, i as int);
        if i < n {
            assert(v@.skip(i as int)[0] != c);
        }
        assert(spec_strip_lead(v@, c) == v@.skip(i as int));
        lemma_strip_trail_take(v@.skip(i as int), c, j - i);
        if j > i {
            assert(v@.skip(i as int).take(j - i).last() != c);
        }
        assert(v@.skip(i as int).take(j - i) =~= v@.subrange(i as int, j as int));
        assert(spec_trim_matches(v@, c) == v@.subrange(i as int, j as int));
    }
    r
}

/// True when `c` occurs in `s`.
pub open spec fn has_char(s: Seq<char>, c: char) -> bool {
    exists|i: int| 0 <= i < s.len() && s[i] == c
}

/// The position of the first occurrence of `c` in `s`, if any.
pub open spec fn spec_find_char(s: Seq<char>, c: char) -> Option<int>
    decreases s.len(),
{
    if s.len() == 0 {
        None
    } else if s[0] == c {
        Some(0)
    } else {
        match spec_find_char(s.skip(1), c) {
            None => None,
            Some(i) => Some(i + 1),
        }
    }
}

/// `spec_find_char` returns the least position of `c`, or `None` when `c`
/// does not occur.
pub proof fn lemma_find_char(s: Seq<char>, c: char)
    ensures
        spec_find_char(s, c) is None <==> (forall|j: int| 0 <= j < s.len() ==> s[j] != c),
        spec_find_char(s, c) matches Some(i) ==> 0 <= i < s.len() && s[i] == c && (forall|j: int|
            0 <= j < i ==> s[j] != c),
    decreases s.len(),
{
    if s.len() == 0 {
    } else if s[0] == c {
    } else {
        lemma_find_char(s.skip(1), c);
        match spec_find_char(s.skip(1), c) {
            None => {
                assert forall|j: int| 0 <= j < s.len() implies s[j] != c by {
                    if j > 0 {
                        assert(s.skip(1)[j - 1] != c);
                    }
                }
            },
            Some(k) => {
                assert(s[k + 1] == s.skip(1)[k]);
                assert forall|j: int| 0 <= j < k + 1 implies s[j] != c by {
                    if j > 0 {
                        assert(s.skip(1)[j - 1] != c);
                    }
                }
            },
        }
    }
}

/// `c` first occurs at `i` exactly when `i` carries `c` and no earlier
/// position does.
pub proof fn lemma_find_char_is(s: Seq<char>, c: char, i: int)
    requires
        0 <= i < s.len(),
        s[i] == c,
        forall|m: int| 0 <= m < i ==> s[m] != c,
    ensures
        spec_find_char(s, c) == Some(i),
{
    lemma_find_char(s, c);
    match spec_find_char(s, c) {
        None => {
            assert(false);
        },
        Some(k) => {
            if k < i {
                assert(s[k] != c);
                assert(false);
            }
            if k > i {
                assert(s[i] != c);
                assert(false);
            }
        },
    }
}

/// `c` is found nowhere when no position carries it.
pub proof fn lemma_find_char_is_none(s: Seq<char>, c: char)
    requires
        forall|m: int| 0 <= m < s.len() ==> s[m] != c,
    ensures
        spec_find_char(s, c) is None,
{
    lemma_find_char(s, c);
    match spec_find_char(s, c) {
        None => {},
        Some(k) => {
            assert(s[k] != c);
            assert(false);
        },
    }
}

/// The pieces of `s` between occurrences of the separator `c`, in order.
/// A string without the separator is one piece; each separator ends a piece,
/// so `n` separators give `n + 1` pieces.
pub open spec fn spec_split_char(s: Seq<char>, c: char) -> Seq<Seq<char>>
    decreases s.len(),
    via spec_split_char_decreases
{
    match spec_find_char(s, c) {
        None => seq![s],
        Some(i) => seq![s.take(i)] + spec_split_char(s.skip(i + 1), c),
    }
}

#[via_fn]
proof fn spec_split_char_decreases(s: Seq<char>, c: char) {
    lemma_find_char(s, c);
}

/// The pieces joined back with the separator `c` between them.
pub open spec fn spec_join_char(parts: Seq<Seq<char>>, c: char) -> Seq<char>
    decreases parts.len(),
{
    if parts.len() == 0 {
        Seq::empty()
    } else if parts.len() == 1 {
        parts[0]
    } else {
        parts[0] + seq![c] + spec_join_char(parts.skip(1), c)
    }
}

pub proof fn lemma_find_char_prefix(a: Seq<char>, c: char, rest: Seq<char>)
    requires
        forall|j: int| 0 <= j < a.len() ==> a[j] != c,
    ensures
        spec_find_char(a + seq![c] + rest, c) == Some(a.len() as int),
{
    let s = a + seq![c] + rest;
    lemma_find_char(s, c);
    assert(s[a.len() as int] == c);
    match spec_find_char(s, c) {
        None => {
            assert(false);
        },
        Some(i) => {
            if i < a.len() {
                assert(s[i] == a[i]);
                assert(false);
            }
            if i > a.len() {
                assert(s[a.len() as int] != c);
                assert(false);
            }
        },
    }
}

/// Splitting on `c` undoes joining with `c`, as long as no piece holds `c`
/// itself.
pub proof fn lemma_split_join_char(parts: Seq<Seq<char>>, c: char)
    requires
        parts.len() >= 1,
        forall|k: int, j: int|
            0 <= k < parts.len() && 0 <= j < parts[k].len() ==> #[trigger] parts[k][j] != c,
    ensures
        spec_split_char(spec_join_char(parts, c), c) == parts,
    decreases parts.len(),
{
    let s = spec_join_char(parts, c);
    if parts.len() == 1 {
        lemma_find_char(s, c);
        match spec_find_char(s, c) {
            None => {
                assert(spec_split_char(s, c) =~= parts);
            },
            Some(i) => {
                assert(parts[0][i] != c);
                assert(false);
            },
        }
    } else {
        let rest = spec_join_char(parts.skip(1), c);
        assert(s == parts[0] + seq![c] + rest);
        lemma_find_char_prefix(parts[0], c, rest);
        let i = parts[0].len() as int;
        assert(s.take(i) =~= parts[0]);
        assert(s.skip(i + 1) =~= rest);
        assert(forall|k: int, j: int|
            0 <= k < parts.skip(1).len() && 0 <= j < parts.skip(1)[k].len()
                ==> #[trigger] parts.skip(1)[k][j] != c) by {
            assert forall|k: int, j: int|
                0 <= k < parts.skip(1).len() && 0 <= j < parts.skip(1)[k].len()
                    implies #[trigger] parts.skip(1)[k][j] != c by {
                assert(parts.skip(1)[k] == parts[k + 1]);
                assert(parts[k + 1][j] != c);
            }
        }
        lemma_split_join_char(parts.skip(1), c);
        assert(spec_split_char(s, c) =~= seq![s.take(i)] + spec_split_char(rest, c));
        assert(seq![parts[0]] + parts.skip(1) =~= parts);
    }
}

/// The position of the first occurrence of `c` in `v` at or after `from`,
/// if any.
pub fn find_char_from(v: &Vec<char>, c: char, from: usize) -> (r: Option<usize>)
    requires
        from <= v@.len(),
    ensures
        r matches Some(k) ==> from <= k < v@.len() && v@[k as int] == c && (forall|m: int|
            from <= m < k ==> v@[m] != c),
        r is None ==> forall|m: int| from <= m < v@.len() ==> v@[m] != c,
{
    let n = v.len();
    let mut i: usize = from;
    while i < n
        invariant
            from <= i <= n,
            n == v@.len(),
            forall|m: int| from <= m < i ==> v@[m] != c,
        decreases n - i,
    {
        if v[i] == c {
            return Some(i);
        }
        i = i + 1;
    }
    None
}

proof fn lemma_split_char_step(s: Seq<char>, c: char, i: int)
    requires
        0 <= i < s.len(),
        s[i] == c,
        forall|m: int| 0 <= m < i ==> s[m] != c,
    ensures
        spec_split_char(s, c) == seq![s.take(i)] + spec_split_char(s.skip(i + 1), c),
{
    lemma_find_char(s, c);
    match spec_find_char(s, c) {
        None => {
            assert(false);
        },
        Some(k) => {
            if k < i {
                assert(s[k] != c);
                assert(false);
            }
            if k > i {
                assert(s[i] != c);
                assert(false);
            }
        },
    }
}

/// The pieces of `v` between occurrences of the separator `c`.
pub fn split_char(v: &Vec<char>, c: char) -> (r: Vec<Vec<char>>)
    ensures
        r.deep_view() == spec_split_char(v@, c),
{
    let n = v.len();
    let mut r: Vec<Vec<char>> = Vec::new();
    let mut pos: usize = 0;
    proof {
        assert(v@.skip(0) =~= v@);
        assert(r.deep_view() =~= Seq::<Seq<char>>::empty());
    }
    loop
        invariant
            pos <= n,
            n == v@.len(),
            spec_split_char(v@, c) == r.deep_view() + spec_split_char(v@.skip(pos as int), c),
        decreases n - pos,
    {
        match find_char_from(v, c, pos) {
            Some(k) => {
                let piece = subvec(v, pos, k);
                let ghost old_r = r.deep_view();
                let ghost pos0 = pos as int;
                r.push(piece);
                pos = k + 1;
                proof {
                    let s0 = v@.skip(pos0);
                    assert(s0[k - pos0] == c);
                    assert forall|m: int| 0 <= m < k - pos0 implies s0[m] != c by {
                        assert(s0[m] == v@[pos0 + m]);
                    }
                    lemma_split_char_step(s0, c, k - pos0);
                    assert(s0.take(k - pos0) =~= v@.subrange(pos0, k as int));
                    assert(s0.skip(k - pos0 + 1) =~= v@.skip(pos as int));
                    assert(piece.deep_view() =~= piece@);
                    assert(r.deep_view() =~= old_r + seq![piece@]);
                    assert(r.deep_view() + spec_split_char(v@.skip(pos as int), c) =~= old_r
                        + spec_split_char(s0, c));
                }
            },
            None => {
                let piece = subvec(v, pos, n);
                let ghost old_r = r.deep_view();
                r.push(piece);
                proof {
                    lemma_find_char(v@.skip(pos as int), c);
                    assert(spec_split_char(v@.skip(pos as int), c) == seq![v@.skip(pos as int)]);
                    assert(v@.subrange(pos as int, n as int) =~= v@.skip(pos as int));
                    assert(piece.deep_view() =~= piece@);
                    assert(r.deep_view() =~= old_r + seq![piece@]);
                    assert(r.deep_view() =~= spec_split_char(v@, c));
                }
                return r;
            },
        }
    }
}

} // verus!
