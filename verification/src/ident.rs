//! Filename derivation: a title maps to a safe, stable identifier used as
//! both document id and filename stem.
use vstd::prelude::*;
use crate::text::{is_space_char, chars_of, string_of, subvec};

verus! {

/// What `char::is_alphanumeric` reports; the result depends on the character
/// alone.
pub uninterp spec fn char_alphanumeric(c: char) -> bool;

/// What `char::to_ascii_lowercase` returns: `'A'` to `'Z'` shifted to
/// `'a'` to `'z'`, anything else unchanged.
pub open spec fn spec_ascii_lower(c: char) -> char {
    if 'A' <= c && c <= 'Z' {
        ((c as u8) + 32) as char
    } else {
        c
    }
}

/// Relies on `char::is_alphanumeric`: true exactly on Unicode letters and
/// numbers, a fixed property of the character. A letter or number keeps that
/// property under ASCII lowercasing, which moves `'A'`–`'Z'` to their
/// lowercase letters and touches no other character.
pub assume_specification[ char::is_alphanumeric ](c: char) -> (r: bool)
    ensures
        r == char_alphanumeric(c),
        r ==> char_alphanumeric(spec_ascii_lower(c)),
;

/// Relies on `char::to_ascii_lowercase`: the ASCII uppercase letters map to
/// their lowercase counterparts and every other character is unchanged.
pub assume_specification[ char::to_ascii_lowercase ](c: &char) -> (r: char)
    ensures
        r == spec_ascii_lower(*c),
;

/// Where one title character goes: letters, numbers and the two separators
/// are kept (ASCII letters lower-cased), white space becomes `'-'`, anything
/// else becomes `'_'`.
pub open spec fn sanitize_char(c: char) -> char {
    if char_alphanumeric(c) || c == '-' || c == '_' {
        spec_ascii_lower(c)
    } else if is_space_char(c) {
        '-'
    } else {
        '_'
    }
}

/// True for the two separator characters that are stripped from the ends of
/// a derived id.
pub open spec fn is_sep_char(c: char) -> bool {
    c == '-' || c == '_'
}

pub open spec fn spec_strip_lead_sep(s: Seq<char>) -> Seq<char>
    decreases s.len(),
{
    if s.len() > 0 && is_sep_char(s[0]) {
        spec_strip_lead_sep(s.skip(1))
    } else {
        s
    }
}

pub open spec fn spec_strip_trail_sep(s: Seq<char>) -> Seq<char>
    decreases s.len(),
{
    if s.len() > 0 && is_sep_char(s.last()) {
        spec_strip_trail_sep(s.drop_last())
    } else {
        s
    }
}

/// The id derived from a title: every character mapped by `sanitize_char`,
/// then leading and trailing separators stripped.
pub open spec fn spec_sanitize(title: Seq<char>) -> Seq<char> {
    spec_strip_trail_sep(spec_strip_lead_sep(title.map_values(|c: char| sanitize_char(c))))
}

proof fn lemma_strip_lead_sep_skip(s: Seq<char>, k: int)
    requires
        0 <= k <= s.len(),
        forall|m: int| 0 <= m < k ==> is_sep_char(s[m]),
    ensures
        spec_strip_lead_sep(s) == spec_strip_lead_sep(s.skip(k)),
    decreases k,
{
    if k == 0 {
        assert(s.skip(0) =~= s);
    } else {
        lemma_strip_lead_sep_skip(s.skip(1), k - 1);
        assert(s.skip(1).skip(k - 1) =~= s.skip(k));
    }
}

proof fn lemma_strip_trail_sep_take(s: Seq<char>, k: int)
    requires
        0 <= k <= s.len(),
        forall|m: int| k <= m < s.len() ==> is_sep_char(s[m]),
    ensures
        spec_strip_trail_sep(s) == spec_strip_trail_sep(s.take(k)),
    decreases s.len() - k,
{
    if k == s.len() {
        assert(s.take(k) =~= s);
    } else {
        lemma_strip_trail_sep_take(s.drop_last(), k);
        assert(s.drop_last().take(k) =~= s.take(k));
    }
}

proof fn lemma_lower_idempotent(c: char)
    ensures
        spec_ascii_lower(spec_ascii_lower(c)) == spec_ascii_lower(c),
{
    if 'A' <= c && c <= 'Z' {
        assert(!('A' <= spec_ascii_lower(c) && spec_ascii_lower(c) <= 'Z'));
    }
}

/// The safe, stable identifier derived from a title, used as both document
/// id and filename stem. Derivation is idempotent: the result is a fixed
/// point of derivation, so deriving the id of an id changes nothing.
pub fn sanitize_filename(name: &str) -> (r: String)
    ensures
        r@ == spec_sanitize(name@),
        spec_sanitize(r@) == r@,
{
    let cv = chars_of(name);
    let n = cv.len();
    let mut mapped: Vec<char> = Vec::new();
    let mut i: usize = 0;
    while i < n
        invariant
            i <= n,
            n == cv@.len(),
            cv@ == name@,
            mapped@.len() == i,
            forall|m: int| 0 <= m < i ==> mapped@[m] == sanitize_char(cv@[m]),
            forall|m: int|
                0 <= m < i ==> sanitize_char(#[trigger] mapped@[m]) == mapped@[m],
        decreases n - i,
    {
        let c = cv[i];
        let an = c.is_alphanumeric();
        let mc = if an || c == '-' || c == '_' {
            c.to_ascii_lowercase()
        } else if c.is_whitespace() {
            '-'
        } else {
            '_'
        };
        proof {
            lemma_lower_idempotent(c);
            assert(sanitize_char(mc) == mc);
        }
        mapped.push(mc);
        i = i + 1;
    }
    proof {
        assert(mapped@ =~= name@.map_values(|c: char| sanitize_char(c)));
    }
    let mut a: usize = 0;
    while a < n && (mapped[a] == '-' || mapped[a] == '_')
        invariant
            a <= n,
            n == mapped@.len(),
            forall|m: int| 0 <= m < a ==> is_sep_char(mapped@[m]),
        decreases n - a,
    {
        a = a + 1;
    }
    let mut b: usize = n;
    while b > a && (mapped[b - 1] == '-' || mapped[b - 1] == '_')
        invariant
            a <= b <= n,
            n == mapped@.len(),
            forall|m: int| b <= m < n ==> is_sep_char(mapped@[m]),
        decreases b,
    {
        b = b - 1;
    }
    let r = subvec(&mapped, a, b);
    proof {
        lemma_strip_lead_sep_skip(mapped@, a as int);
        if a < n {
            assert(!is_sep_char(mapped@.skip(a as int)[0]));
        }
        assert(spec_strip_lead_sep(mapped@) == mapped@.skip(a as int));
        lemma_strip_trail_sep_take(mapped@.skip(a as int), b - a);
        if b > a {
            assert(!is_sep_char(mapped@.skip(a as int).take(b - a).last()));
        }
        assert(mapped@.skip(a as int).take(b - a) =~= mapped@.subrange(a as int, b as int));
        assert(spec_sanitize(name@) == mapped@.subrange(a as int, b as int));
        // every kept character is a fixed point and the ends are no
        // separators, so the result derives to itself
        assert forall|m: int| 0 <= m < r@.len() implies sanitize_char(#[trigger] r@[m])
            == r@[m] by {
            assert(r@[m] == mapped@[a + m]);
        }
        if r@.len() > 0 {
            assert(r@[0] == mapped@[a as int]);
            assert(r@.last() == mapped@[b - 1]);
        }
        lemma_sanitize_identity(r@);
    }
    string_of(&r)
}

proof fn lemma_strip_lead_sep_first(s: Seq<char>)
    ensures
        spec_strip_lead_sep(s).len() > 0 ==> !is_sep_char(spec_strip_lead_sep(s)[0]),
    decreases s.len(),
{
    if s.len() > 0 && is_sep_char(s[0]) {
        lemma_strip_lead_sep_first(s.skip(1));
    }
}

proof fn lemma_strip_trail_sep_prefix(s: Seq<char>)
    ensures
        spec_strip_trail_sep(s).len() <= s.len(),
        forall|i: int|
            0 <= i < spec_strip_trail_sep(s).len() ==> #[trigger] spec_strip_trail_sep(s)[i]
                == s[i],
        spec_strip_trail_sep(s).len() > 0 ==> !is_sep_char(spec_strip_trail_sep(s).last()),
    decreases s.len(),
{
    if s.len() > 0 && is_sep_char(s.last()) {
        lemma_strip_trail_sep_prefix(s.drop_last());
    }
}

/// A derived id never starts or ends with a separator: it is already trimmed.
pub proof fn lemma_sanitize_trimmed(title: Seq<char>)
    ensures
        spec_sanitize(title).len() > 0 ==> !is_sep_char(spec_sanitize(title)[0]) && !is_sep_char(
            spec_sanitize(title).last(),
        ),
{
    let mapped = title.map_values(|c: char| sanitize_char(c));
    let led = spec_strip_lead_sep(mapped);
    lemma_strip_lead_sep_first(mapped);
    lemma_strip_trail_sep_prefix(led);
    if spec_sanitize(title).len() > 0 {
        assert(spec_sanitize(title)[0] == led[0]);
        assert(!is_sep_char(led[0]));
    }
}

/// Deriving an id is idempotent: a string whose characters are all fixed
/// points of the character mapping and whose ends are not separators derives
/// to itself. In particular, deriving the id of an id changes nothing.
pub proof fn lemma_sanitize_identity(s: Seq<char>)
    requires
        forall|i: int| 0 <= i < s.len() ==> sanitize_char(s[i]) == s[i],
        s.len() > 0 ==> !is_sep_char(s[0]) && !is_sep_char(s.last()),
    ensures
        spec_sanitize(s) == s,
{
    let mapped = s.map_values(|c: char| sanitize_char(c));
    assert(mapped =~= s);
    if s.len() == 0 {
        assert(spec_sanitize(s) =~= s);
    } else {
        assert(spec_strip_lead_sep(s) == s);
        assert(spec_strip_trail_sep(s) == s);
    }
}

} // verus!
