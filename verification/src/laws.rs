//! The codec's laws: decoding undoes encoding for every well-formed
//! document, and a file without delimiters decodes as body-only.
use vstd::prelude::*;
use crate::document::{
    delim, spec_parse_doc, spec_serialize_doc, spec_file_stem, untitled, front_of_prompt,
};
use crate::header::{
    key_title, key_tags, key_description, key_use_count, key_last_used, key_created_at,
    key_updated_at, quoted, kv_line, tags_inner, tags_value, yaml_lines, spec_serialize_header,
    spec_parse_header, front_defaults, apply_header_line, parse_header_lines, parse_tag_elem,
    parse_tag_list, parse_tags_value,
};
use crate::model::{FrontSpec, PromptSpec};
use crate::num::{
    spec_dec, dec_digit, is_dec_digit, all_dec_digits, digits_val, spec_parse_u32, parse_u32_body,
};
use crate::text::{
    is_space_char, spec_trim, spec_trim_start, spec_trim_end, spec_trim_matches, spec_strip_lead,
    spec_strip_trail, match_at, has_sub, has_char, spec_find_sub, spec_find_char, spec_split_char,
    spec_join_char, lemma_find_sub, lemma_find_char, lemma_find_char_is_none,
    lemma_split_join_char,
};

verus! {

/// Three dashes stand at `j` in `s`.
pub open spec fn dash3_at(s: Seq<char>, j: int) -> bool {
    0 <= j && j + 3 <= s.len() && s[j] == '-' && s[j + 1] == '-' && s[j + 2] == '-'
}

/// No three consecutive dashes anywhere in `s`: such a text cannot hold the
/// document delimiter.
pub open spec fn no_delim(s: Seq<char>) -> bool {
    forall|j: int| !dash3_at(s, j)
}

proof fn lemma_dash3_is_match(s: Seq<char>, j: int)
    ensures
        dash3_at(s, j) <==> match_at(s, delim(), j),
{
    if dash3_at(s, j) {
        assert(s.subrange(j, j + 3) =~= delim());
    }
    if match_at(s, delim(), j) {
        assert(s.subrange(j, j + 3)[0] == s[j]);
        assert(s.subrange(j, j + 3)[1] == s[j + 1]);
        assert(s.subrange(j, j + 3)[2] == s[j + 2]);
    }
}

/// A text without the delimiter substring has no three consecutive dashes:
/// the form of the condition that `wf_prompt` asks for.
pub proof fn lemma_no_delim_no_sub(s: Seq<char>)
    requires
        !has_sub(s, delim()),
    ensures
        no_delim(s),
{
    assert forall|j: int| !dash3_at(s, j) by {
        lemma_dash3_is_match(s, j);
        if match_at(s, delim(), j) {
            assert(has_sub(s, delim()));
        }
    }
}

proof fn lemma_no_dash_no_delim(s: Seq<char>)
    requires
        forall|j: int| 0 <= j < s.len() ==> s[j] != '-',
    ensures
        no_delim(s),
{
    assert forall|j: int| !dash3_at(s, j) by {
        if 0 <= j && j + 3 <= s.len() {
            assert(s[j] != '-');
        }
    }
}

/// Concatenation keeps texts delimiter-free as long as the seam itself is
/// not all dashes.
proof fn lemma_no_delim_concat(a: Seq<char>, b: Seq<char>)
    requires
        no_delim(a),
        no_delim(b),
        a.len() == 0 || b.len() == 0 || a.last() != '-' || b[0] != '-',
    ensures
        no_delim(a + b),
{
    let s = a + b;
    assert forall|j: int| !dash3_at(s, j) by {
        if 0 <= j && j + 3 <= s.len() {
            if j + 3 <= a.len() {
                assert(s[j] == a[j] && s[j + 1] == a[j + 1] && s[j + 2] == a[j + 2]);
                assert(!dash3_at(a, j));
            } else if j >= a.len() {
                assert(s[j] == b[j - a.len()] && s[j + 1] == b[j + 1 - a.len()] && s[j + 2] == b[j
                    + 2 - a.len()]);
                assert(!dash3_at(b, j - a.len()));
            } else {
                // the window spans the seam: it holds both a's last character
                // and b's first
                assert(a.len() >= 1 && b.len() >= 1);
                assert(j <= a.len() - 1 <= j + 2);
                assert(j <= a.len() <= j + 2);
                assert(s[a.len() - 1] == a.last());
                assert(s[a.len() as int] == b[0]);
            }
        }
    }
}

/// A character that every header key is made of: a lowercase ASCII letter or
/// an underscore.
pub open spec fn key_char(c: char) -> bool {
    ('a' <= c && c <= 'z') || c == '_'
}

proof fn lemma_key_chars()
    ensures
        forall|j: int| 0 <= j < key_title().len() ==> key_char(#[trigger] key_title()[j]),
        forall|j: int| 0 <= j < key_tags().len() ==> key_char(#[trigger] key_tags()[j]),
        forall|j: int|
            0 <= j < key_description().len() ==> key_char(#[trigger] key_description()[j]),
        forall|j: int| 0 <= j < key_use_count().len() ==> key_char(#[trigger] key_use_count()[j]),
        forall|j: int| 0 <= j < key_last_used().len() ==> key_char(#[trigger] key_last_used()[j]),
        forall|j: int|
            0 <= j < key_created_at().len() ==> key_char(#[trigger] key_created_at()[j]),
        forall|j: int|
            0 <= j < key_updated_at().len() ==> key_char(#[trigger] key_updated_at()[j]),
{
}

proof fn lemma_key_char_props(c: char)
    requires
        key_char(c),
    ensures
        !is_space_char(c),
        c != ':',
        c != '\n',
        c != '-',
        c != '#',
        c != '"',
{
}

/// A header value that survives the codec: no newline (it would break the
/// line), no three consecutive dashes (they would end the header early), and
/// no white space at either end (the decoder trims each value).
pub open spec fn plain_value(s: Seq<char>) -> bool {
    &&& !has_char(s, '\n')
    &&& no_delim(s)
    &&& s.len() > 0
    &&& !is_space_char(s[0])
    &&& !is_space_char(s.last())
}

/// A tag that survives the codec: a plain value free of quotes of both kinds
/// and of the comma that separates list elements.
pub open spec fn wf_tag(t: Seq<char>) -> bool {
    &&& plain_value(t)
    &&& !has_char(t, '"')
    &&& !has_char(t, '\'')
    &&& !has_char(t, ',')
}

/// A document the codec round-trips exactly: every header field is a plain
/// value, quoted fields carry no double quote of their own, and the body
/// carries no white space at its ends (the decoder trims it).
pub open spec fn wf_prompt(d: PromptSpec) -> bool {
    &&& plain_value(d.title) && !has_char(d.title, '"')
    &&& (forall|k: int| 0 <= k < d.tags.len() ==> wf_tag(#[trigger] d.tags[k]))
    &&& (match d.description {
        Some(de) => plain_value(de) && !has_char(de, '"'),
        None => true,
    })
    &&& (match d.last_used {
        Some(l) => plain_value(l),
        None => true,
    })
    &&& plain_value(d.created_at)
    &&& plain_value(d.updated_at)
    &&& (d.content.len() > 0 ==> !is_space_char(d.content[0]) && !is_space_char(d.content.last()))
}

proof fn lemma_trim_start_noop(s: Seq<char>)
    requires
        s.len() == 0 || !is_space_char(s[0]),
    ensures
        spec_trim_start(s) == s,
{
}

proof fn lemma_trim_end_noop(s: Seq<char>)
    requires
        s.len() == 0 || !is_space_char(s.last()),
    ensures
        spec_trim_end(s) == s,
{
}

proof fn lemma_trim_noop(s: Seq<char>)
    requires
        s.len() == 0 || (!is_space_char(s[0]) && !is_space_char(s.last())),
    ensures
        spec_trim(s) == s,
{
}

proof fn lemma_trim_start_one(c: char, s: Seq<char>)
    requires
        is_space_char(c),
    ensures
        spec_trim_start(seq![c] + s) == spec_trim_start(s),
{
    assert((seq![c] + s)[0] == c);
    assert((seq![c] + s).skip(1) =~= s);
}

/// Stripping the quotes the encoder added gives back the quoted text, which
/// holds no quote of its own.
proof fn lemma_unquote(t: Seq<char>)
    requires
        !has_char(t, '"'),
    ensures
        spec_trim_matches(quoted(t), '"') == t,
{
    let q = quoted(t);
    assert(q[0] == '"');
    assert(q.skip(1) =~= t + seq!['"']);
    if t.len() == 0 {
        assert(q.skip(1) =~= seq!['"']);
        assert(spec_strip_lead(q, '"') == spec_strip_lead(seq!['"'], '"'));
        assert(seq!['"'][0] == '"');
        assert(seq!['"'].skip(1) =~= Seq::<char>::empty());
        assert(spec_strip_lead(seq!['"'], '"') == spec_strip_lead(Seq::<char>::empty(), '"'));
        assert(spec_strip_lead(Seq::<char>::empty(), '"') == Seq::<char>::empty());
        assert(spec_strip_trail(Seq::<char>::empty(), '"') =~= t);
    } else {
        assert((t + seq!['"'])[0] == t[0]);
        assert(t[0] != '"');
        assert(spec_strip_lead(t + seq!['"'], '"') == t + seq!['"']);
        assert(spec_strip_lead(q, '"') == spec_strip_lead(t + seq!['"'], '"'));
        assert((t + seq!['"']).last() == '"');
        assert((t + seq!['"']).drop_last() =~= t);
        assert(t.last() != '"');
        assert(spec_strip_trail(t + seq!['"'], '"') == spec_strip_trail(t, '"'));
        assert(spec_strip_trail(t, '"') == t);
    }
}

/// How the decoder takes one encoded line apart: the line is already
/// trimmed, its first colon ends the key, the key comes back exactly, and
/// the value comes back trimmed of the single space the encoder wrote.
proof fn lemma_kv_line_parts(key: Seq<char>, value: Seq<char>)
    requires
        key.len() > 0,
        forall|j: int| 0 <= j < key.len() ==> key_char(#[trigger] key[j]),
        value.len() > 0,
        !is_space_char(value.last()),
    ensures
        ({
            let line = kv_line(key, value);
            &&& spec_trim(line) == line
            &&& line.len() > 0
            &&& line[0] != '#'
            &&& spec_find_char(line, ':') == Some(key.len() as int)
            &&& spec_trim(line.take(key.len() as int)) == key
            &&& spec_trim(line.skip(key.len() as int + 1)) == spec_trim(value)
        }),
{
    let line = kv_line(key, value);
    assert(line[0] == key[0]);
    lemma_key_char_props(key[0]);
    assert(line.last() == value.last());
    lemma_trim_noop(line);
    assert(line =~= key + seq![':'] + (seq![' '] + value));
    assert forall|j: int| 0 <= j < key.len() implies key[j] != ':' by {
        lemma_key_char_props(key[j]);
    }
    crate::text::lemma_find_char_prefix(key, ':', seq![' '] + value);
    assert(line.take(key.len() as int) =~= key);
    lemma_trim_noop(key);
    assert(line.skip(key.len() as int + 1) =~= seq![' '] + value);
    lemma_trim_start_one(' ', value);
    assert(spec_trim(seq![' '] + value) == spec_trim(value));
}

proof fn lemma_strip_noop(s: Seq<char>, c: char)
    requires
        s.len() == 0 || (s[0] != c && s.last() != c),
    ensures
        spec_trim_matches(s, c) == s,
{
}

proof fn lemma_keys_distinct()
    ensures
        key_title() != key_tags(),
        key_title() != key_description(),
        key_title() != key_use_count(),
        key_title() != key_last_used(),
        key_title() != key_created_at(),
        key_title() != key_updated_at(),
        key_tags() != key_description(),
        key_tags() != key_use_count(),
        key_tags() != key_last_used(),
        key_tags() != key_created_at(),
        key_tags() != key_updated_at(),
        key_description() != key_use_count(),
        key_description() != key_last_used(),
        key_description() != key_created_at(),
        key_description() != key_updated_at(),
        key_use_count() != key_last_used(),
        key_use_count() != key_created_at(),
        key_use_count() != key_updated_at(),
        key_last_used() != key_created_at(),
        key_last_used() != key_updated_at(),
        key_created_at() != key_updated_at(),
{
    assert(key_use_count()[0] == 'u' && key_last_used()[0] == 'l');
    assert(key_created_at()[0] == 'c' && key_updated_at()[0] == 'u');
}

proof fn lemma_quoted_last(t: Seq<char>)
    ensures
        quoted(t).len() >= 2,
        quoted(t)[0] == '"',
        quoted(t).last() == '"',
{
    assert(quoted(t).last() == '"');
}

proof fn lemma_quoted_no_char(t: Seq<char>, c: char)
    requires
        !has_char(t, c),
        c != '"',
    ensures
        forall|j: int| 0 <= j < quoted(t).len() ==> quoted(t)[j] != c,
{
    let q = quoted(t);
    assert forall|j: int| 0 <= j < q.len() implies q[j] != c by {
        if j == 0 || j == q.len() - 1 {
        } else {
            assert(q[j] == t[j - 1]);
            assert(!(0 <= j - 1 < t.len() && t[j - 1] == c));
        }
    }
}

/// Reading back one encoded title line sets the title and nothing else.
proof fn lemma_apply_title(acc: FrontSpec, t: Seq<char>)
    requires
        plain_value(t),
        !has_char(t, '"'),
    ensures
        apply_header_line(acc, kv_line(key_title(), quoted(t))) == (FrontSpec { title: t, ..acc }),
{
    lemma_key_chars();
    let value = quoted(t);
    lemma_quoted_last(t);
    lemma_kv_line_parts(key_title(), value);
    lemma_trim_noop(value);
    lemma_unquote(t);
}

/// Reading back one encoded description line sets the description and
/// nothing else.
proof fn lemma_apply_description(acc: FrontSpec, de: Seq<char>)
    requires
        plain_value(de),
        !has_char(de, '"'),
    ensures
        apply_header_line(acc, kv_line(key_description(), quoted(de))) == (FrontSpec {
            description: Some(de),
            ..acc
        }),
{
    lemma_key_chars();
    lemma_keys_distinct();
    let value = quoted(de);
    lemma_quoted_last(de);
    lemma_kv_line_parts(key_description(), value);
    lemma_trim_noop(value);
    lemma_unquote(de);
}

/// The decimal digits of `n` parse back to `n`.
proof fn lemma_dec_digits(n: nat)
    ensures
        spec_dec(n).len() > 0,
        all_dec_digits(spec_dec(n)),
        digits_val(spec_dec(n)) == n,
        !is_space_char(spec_dec(n)[0]),
        !is_space_char(spec_dec(n).last()),
        spec_dec(n)[0] != '+',
        forall|j: int| 0 <= j < spec_dec(n).len() ==> spec_dec(n)[j] != '-',
        forall|j: int| 0 <= j < spec_dec(n).len() ==> spec_dec(n)[j] != '\n',
    decreases n,
{
    if n < 10 {
        assert(spec_dec(n) =~= seq![dec_digit(n as int)]);
        assert(dec_digit(n as int) as int == 48 + n);
        assert(digits_val(seq![dec_digit(n as int)].drop_last()) == 0) by {
            assert(seq![dec_digit(n as int)].drop_last() =~= Seq::<char>::empty());
        }
        assert(is_dec_digit(dec_digit(n as int)));
    } else {
        lemma_dec_digits(n / 10);
        let s = spec_dec(n);
        let prev = spec_dec(n / 10);
        let d = dec_digit((n % 10) as int);
        assert(d as int == 48 + n % 10);
        assert(is_dec_digit(d));
        assert(s == prev.push(d));
        assert(s.drop_last() =~= prev);
        assert(s.last() == d);
        assert(digits_val(s) == digits_val(prev) * 10 + (d as int - 48));
        assert(digits_val(s) == (n / 10) * 10 + n % 10);
        assert forall|j: int| 0 <= j < s.len() implies is_dec_digit(s[j]) by {
            if j < prev.len() {
                assert(s[j] == prev[j]);
            }
        }
        assert forall|j: int| 0 <= j < s.len() implies s[j] != '-' && s[j] != '\n' by {
            if j < prev.len() {
                assert(s[j] == prev[j]);
            } else {
                assert(s[j] == d);
            }
        }
        assert(s[0] == prev[0]);
    }
}

/// Reading back one encoded use-count line restores the exact count.
proof fn lemma_apply_use_count(acc: FrontSpec, n: u32)
    ensures
        apply_header_line(acc, kv_line(key_use_count(), spec_dec(n as nat))) == (FrontSpec {
            use_count: n,
            ..acc
        }),
{
    lemma_key_chars();
    lemma_keys_distinct();
    lemma_dec_digits(n as nat);
    let value = spec_dec(n as nat);
    lemma_kv_line_parts(key_use_count(), value);
    lemma_trim_noop(value);
    assert(parse_u32_body(value) == value);
    assert(spec_parse_u32(value) == Some(n)) by {
        assert(digits_val(value) == n);
        assert(digits_val(value) <= u32::MAX);
    }
}

/// Reading back one encoded last-used line restores the timestamp.
proof fn lemma_apply_last_used(acc: FrontSpec, l: Seq<char>)
    requires
        plain_value(l),
    ensures
        apply_header_line(acc, kv_line(key_last_used(), l)) == (FrontSpec {
            last_used: Some(l),
            ..acc
        }),
{
    lemma_key_chars();
    lemma_keys_distinct();
    lemma_kv_line_parts(key_last_used(), l);
    lemma_trim_noop(l);
}

/// Reading back one encoded creation-time line restores the timestamp.
proof fn lemma_apply_created_at(acc: FrontSpec, v: Seq<char>)
    requires
        plain_value(v),
    ensures
        apply_header_line(acc, kv_line(key_created_at(), v)) == (FrontSpec {
            created_at: v,
            ..acc
        }),
{
    lemma_key_chars();
    lemma_keys_distinct();
    lemma_kv_line_parts(key_created_at(), v);
    lemma_trim_noop(v);
}

/// Reading back one encoded update-time line restores the timestamp.
proof fn lemma_apply_updated_at(acc: FrontSpec, v: Seq<char>)
    requires
        plain_value(v),
    ensures
        apply_header_line(acc, kv_line(key_updated_at(), v)) == (FrontSpec {
            updated_at: v,
            ..acc
        }),
{
    lemma_key_chars();
    lemma_keys_distinct();
    lemma_kv_line_parts(key_updated_at(), v);
    lemma_trim_noop(v);
}

proof fn lemma_elem_of_quoted(t: Seq<char>)
    requires
        wf_tag(t),
    ensures
        parse_tag_elem(quoted(t)) == t,
        parse_tag_elem(seq![' '] + quoted(t)) == t,
{
    lemma_quoted_last(t);
    lemma_trim_noop(quoted(t));
    lemma_unquote(t);
    lemma_strip_noop(t, '\'');
    lemma_trim_start_one(' ', quoted(t));
    assert(spec_trim(seq![' '] + quoted(t)) == spec_trim(quoted(t)));
}

/// One piece of the elements that a decoded tag list splits into: the first
/// is the quoted tag, every later one carries the single space the encoder
/// wrote after the comma.
pub open spec fn spaced_quoted(t: Seq<char>) -> Seq<char> {
    seq![' '] + quoted(t)
}

proof fn lemma_spaced_quoted_no_comma(t: Seq<char>)
    requires
        !has_char(t, ','),
    ensures
        forall|j: int| 0 <= j < quoted(t).len() ==> quoted(t)[j] != ',',
        forall|j: int| 0 <= j < spaced_quoted(t).len() ==> spaced_quoted(t)[j] != ',',
{
    lemma_quoted_no_char(t, ',');
    assert forall|j: int| 0 <= j < spaced_quoted(t).len() implies spaced_quoted(t)[j] != ',' by {
        if j > 0 {
            assert(spaced_quoted(t)[j] == quoted(t)[j - 1]);
        }
    }
}

proof fn lemma_tags_tail(tags: Seq<Seq<char>>)
    requires
        tags.len() >= 1,
        forall|k: int| 0 <= k < tags.len() ==> wf_tag(#[trigger] tags[k]),
    ensures
        parse_tag_list(spec_split_char(seq![' '] + tags_inner(tags), ',')) == tags,
    decreases tags.len(),
{
    let s = seq![' '] + tags_inner(tags);
    if tags.len() == 1 {
        assert(tags_inner(tags) == quoted(tags[0]));
        lemma_spaced_quoted_no_comma(tags[0]);
        assert forall|j: int| 0 <= j < s.len() implies s[j] != ',' by {
            assert(s == spaced_quoted(tags[0]));
        }
        lemma_find_char_is_none(s, ',');
        assert(spec_split_char(s, ',') == seq![s]);
        lemma_elem_of_quoted(tags[0]);
        assert(s == spaced_quoted(tags[0]));
        assert(parse_tag_elem(s) == tags[0]);
        assert(tags[0].len() > 0);
        assert(seq![s].skip(1) =~= Seq::<Seq<char>>::empty());
        assert(parse_tag_list(Seq::<Seq<char>>::empty()) == Seq::<Seq<char>>::empty());
        assert(parse_tag_list(seq![s]) =~= tags);
    } else {
        let head = spaced_quoted(tags[0]);
        let rest = seq![' '] + tags_inner(tags.skip(1));
        assert(tags_inner(tags) == quoted(tags[0]) + seq![',', ' '] + tags_inner(tags.skip(1)));
        assert(s =~= head + seq![','] + rest);
        lemma_spaced_quoted_no_comma(tags[0]);
        assert forall|j: int| 0 <= j < head.len() implies head[j] != ',' by {}
        crate::text::lemma_find_char_prefix(head, ',', rest);
        lemma_find_char(s, ',');
        let i = head.len() as int;
        assert(spec_find_char(s, ',') == Some(i));
        assert(s.take(i) =~= head);
        assert(s.skip(i + 1) =~= rest);
        assert(spec_split_char(s, ',') == seq![head] + spec_split_char(rest, ','));
        assert(forall|k: int|
            0 <= k < tags.skip(1).len() ==> wf_tag(#[trigger] tags.skip(1)[k])) by {
            assert forall|k: int|
                0 <= k < tags.skip(1).len() implies wf_tag(#[trigger] tags.skip(1)[k]) by {
                assert(tags.skip(1)[k] == tags[k + 1]);
            }
        }
        lemma_tags_tail(tags.skip(1));
        lemma_elem_of_quoted(tags[0]);
        let pieces = seq![head] + spec_split_char(rest, ',');
        assert(pieces[0] == head);
        assert(pieces.skip(1) =~= spec_split_char(rest, ','));
        assert(parse_tag_elem(head) == tags[0]);
        assert(tags[0].len() > 0);
        assert(parse_tag_list(pieces) == seq![tags[0]] + tags.skip(1));
        assert(seq![tags[0]] + tags.skip(1) =~= tags);
    }
}

/// Splitting and reading back an encoded tag list restores the tags exactly.
proof fn lemma_tags_roundtrip(tags: Seq<Seq<char>>)
    requires
        forall|k: int| 0 <= k < tags.len() ==> wf_tag(#[trigger] tags[k]),
    ensures
        parse_tag_list(spec_split_char(tags_inner(tags), ',')) == tags,
{
    let inner = tags_inner(tags);
    if tags.len() == 0 {
        assert(inner == Seq::<char>::empty());
        lemma_find_char_is_none(inner, ',');
        assert(spec_split_char(inner, ',') == seq![inner]);
        assert(parse_tag_elem(inner) == Seq::<char>::empty()) by {
            assert(spec_trim(inner) == inner);
            assert(spec_trim_matches(inner, '"') == inner);
            assert(spec_trim_matches(inner, '\'') == inner);
        }
        assert(seq![inner].skip(1) =~= Seq::<Seq<char>>::empty());
        assert(parse_tag_list(Seq::<Seq<char>>::empty()) == Seq::<Seq<char>>::empty());
        assert(parse_tag_list(seq![inner]) =~= tags);
    } else if tags.len() == 1 {
        assert(inner == quoted(tags[0]));
        lemma_spaced_quoted_no_comma(tags[0]);
        lemma_find_char_is_none(inner, ',');
        assert(spec_split_char(inner, ',') == seq![inner]);
        lemma_elem_of_quoted(tags[0]);
        assert(tags[0].len() > 0);
        assert(seq![inner].skip(1) =~= Seq::<Seq<char>>::empty());
        assert(parse_tag_list(Seq::<Seq<char>>::empty()) == Seq::<Seq<char>>::empty());
        assert(parse_tag_list(seq![inner]) =~= tags);
    } else {
        let head = quoted(tags[0]);
        let rest = seq![' '] + tags_inner(tags.skip(1));
        assert(inner == head + seq![',', ' '] + tags_inner(tags.skip(1)));
        assert(inner =~= head + seq![','] + rest);
        lemma_spaced_quoted_no_comma(tags[0]);
        crate::text::lemma_find_char_prefix(head, ',', rest);
        lemma_find_char(inner, ',');
        let i = head.len() as int;
        assert(spec_find_char(inner, ',') == Some(i));
        assert(inner.take(i) =~= head);
        assert(inner.skip(i + 1) =~= rest);
        assert(spec_split_char(inner, ',') == seq![head] + spec_split_char(rest, ','));
        assert(forall|k: int|
            0 <= k < tags.skip(1).len() ==> wf_tag(#[trigger] tags.skip(1)[k])) by {
            assert forall|k: int|
                0 <= k < tags.skip(1).len() implies wf_tag(#[trigger] tags.skip(1)[k]) by {
                assert(tags.skip(1)[k] == tags[k + 1]);
            }
        }
        lemma_tags_tail(tags.skip(1));
        lemma_elem_of_quoted(tags[0]);
        let pieces = seq![head] + spec_split_char(rest, ',');
        assert(pieces[0] == head);
        assert(pieces.skip(1) =~= spec_split_char(rest, ','));
        assert(parse_tag_elem(head) == tags[0]);
        assert(tags[0].len() > 0);
        assert(parse_tag_list(pieces) == seq![tags[0]] + tags.skip(1));
        assert(seq![tags[0]] + tags.skip(1) =~= tags);
    }
}

/// Reading back one encoded tags line restores the tag list exactly.
proof fn lemma_apply_tags(acc: FrontSpec, tags: Seq<Seq<char>>)
    requires
        forall|k: int| 0 <= k < tags.len() ==> wf_tag(#[trigger] tags[k]),
    ensures
        apply_header_line(acc, kv_line(key_tags(), tags_value(tags))) == (FrontSpec {
            tags: tags,
            ..acc
        }),
{
    lemma_key_chars();
    lemma_keys_distinct();
    let value = tags_value(tags);
    assert(value[0] == '[');
    assert(value.last() == ']');
    assert(value.len() >= 2);
    lemma_kv_line_parts(key_tags(), value);
    lemma_trim_noop(value);
    assert(value.subrange(1, value.len() - 1) =~= tags_inner(tags));
    lemma_tags_roundtrip(tags);
    assert(parse_tags_value(value) == Some(tags));
}

/// A header whose every field the codec round-trips.
pub open spec fn wf_front(f: FrontSpec) -> bool {
    &&& plain_value(f.title) && !has_char(f.title, '"')
    &&& (forall|k: int| 0 <= k < f.tags.len() ==> wf_tag(#[trigger] f.tags[k]))
    &&& (match f.description {
        Some(de) => plain_value(de) && !has_char(de, '"'),
        None => true,
    })
    &&& (match f.last_used {
        Some(l) => plain_value(l),
        None => true,
    })
    &&& plain_value(f.created_at)
    &&& plain_value(f.updated_at)
}

proof fn lemma_seq2_no_delim(a: char, b: char)
    ensures
        no_delim(seq![a, b]),
        no_delim(seq![a]),
        no_delim(Seq::<char>::empty()),
{
    assert(forall|j: int| !dash3_at(seq![a, b], j));
    assert(forall|j: int| !dash3_at(seq![a], j));
    assert(forall|j: int| !dash3_at(Seq::<char>::empty(), j));
}

proof fn lemma_quoted_facts(t: Seq<char>)
    requires
        !has_char(t, '\n'),
        no_delim(t),
    ensures
        no_delim(quoted(t)),
        forall|j: int| 0 <= j < quoted(t).len() ==> quoted(t)[j] != '\n',
{
    lemma_seq2_no_delim('"', '"');
    lemma_no_delim_concat(seq!['"'], t);
    lemma_no_delim_concat(seq!['"'] + t, seq!['"']);
    assert(quoted(t) =~= (seq!['"'] + t) + seq!['"']);
    assert forall|j: int| 0 <= j < quoted(t).len() implies quoted(t)[j] != '\n' by {
        if 0 < j < quoted(t).len() - 1 {
            assert(quoted(t)[j] == t[j - 1]);
            assert(!(0 <= j - 1 < t.len() && t[j - 1] == '\n'));
        }
    }
}

proof fn lemma_tags_inner_facts(tags: Seq<Seq<char>>)
    requires
        forall|k: int| 0 <= k < tags.len() ==> wf_tag(#[trigger] tags[k]),
    ensures
        no_delim(tags_inner(tags)),
        forall|j: int| 0 <= j < tags_inner(tags).len() ==> tags_inner(tags)[j] != '\n',
    decreases tags.len(),
{
    if tags.len() == 0 {
        lemma_seq2_no_delim(' ', ' ');
    } else if tags.len() == 1 {
        lemma_quoted_facts(tags[0]);
    } else {
        assert(forall|k: int|
            0 <= k < tags.skip(1).len() ==> wf_tag(#[trigger] tags.skip(1)[k])) by {
            assert forall|k: int|
                0 <= k < tags.skip(1).len() implies wf_tag(#[trigger] tags.skip(1)[k]) by {
                assert(tags.skip(1)[k] == tags[k + 1]);
            }
        }
        lemma_tags_inner_facts(tags.skip(1));
        lemma_quoted_facts(tags[0]);
        lemma_seq2_no_delim(',', ' ');
        let a = quoted(tags[0]) + seq![',', ' '];
        lemma_no_delim_concat(quoted(tags[0]), seq![',', ' ']);
        lemma_no_delim_concat(a, tags_inner(tags.skip(1)));
        assert(a.last() == ' ');
        assert(tags_inner(tags) =~= a + tags_inner(tags.skip(1)));
        assert forall|j: int| 0 <= j < tags_inner(tags).len() implies tags_inner(tags)[j]
            != '\n' by {
            let q = quoted(tags[0]);
            if j < q.len() {
                assert(tags_inner(tags)[j] == q[j]);
            } else if j >= a.len() {
                assert(tags_inner(tags)[j] == tags_inner(tags.skip(1))[j - a.len()]);
            }
        }
    }
}

proof fn lemma_tags_value_facts(tags: Seq<Seq<char>>)
    requires
        forall|k: int| 0 <= k < tags.len() ==> wf_tag(#[trigger] tags[k]),
    ensures
        no_delim(tags_value(tags)),
        forall|j: int| 0 <= j < tags_value(tags).len() ==> tags_value(tags)[j] != '\n',
        tags_value(tags).len() >= 2,
        tags_value(tags)[0] == '[',
        tags_value(tags).last() == ']',
        !is_space_char(tags_value(tags)[0]),
        !is_space_char(tags_value(tags).last()),
{
    lemma_tags_inner_facts(tags);
    lemma_seq2_no_delim('[', ']');
    lemma_no_delim_concat(seq!['['], tags_inner(tags));
    lemma_no_delim_concat(seq!['['] + tags_inner(tags), seq![']']);
    assert(tags_value(tags) =~= (seq!['['] + tags_inner(tags)) + seq![']']);
    assert(tags_value(tags).last() == ']');
    assert forall|j: int| 0 <= j < tags_value(tags).len() implies tags_value(tags)[j] != '\n' by {
        if 0 < j < tags_value(tags).len() - 1 {
            assert(tags_value(tags)[j] == tags_inner(tags)[j - 1]);
        }
    }
}

proof fn lemma_kv_line_facts(key: Seq<char>, value: Seq<char>)
    requires
        key.len() > 0,
        forall|j: int| 0 <= j < key.len() ==> key_char(#[trigger] key[j]),
        no_delim(value),
        forall|j: int| 0 <= j < value.len() ==> value[j] != '\n',
    ensures
        no_delim(kv_line(key, value)),
        forall|j: int| 0 <= j < kv_line(key, value).len() ==> kv_line(key, value)[j] != '\n',
        kv_line(key, value).len() > 0,
        kv_line(key, value)[0] == key[0],
{
    let line = kv_line(key, value);
    assert(no_delim(key)) by {
        assert forall|j: int| 0 <= j < key.len() implies key[j] != '-' by {
            lemma_key_char_props(key[j]);
        }
        lemma_no_dash_no_delim(key);
    }
    lemma_seq2_no_delim(':', ' ');
    lemma_no_delim_concat(key, seq![':', ' ']);
    lemma_no_delim_concat(key + seq![':', ' '], value);
    assert((key + seq![':', ' ']).last() == ' ');
    assert(line =~= (key + seq![':', ' ']) + value);
    assert forall|j: int| 0 <= j < line.len() implies line[j] != '\n' by {
        if j < key.len() {
            assert(line[j] == key[j]);
            lemma_key_char_props(key[j]);
        } else if j >= key.len() + 2 {
            assert(line[j] == value[j - key.len() - 2]);
        }
    }
}

proof fn lemma_join_first_last(parts: Seq<Seq<char>>, c: char)
    requires
        parts.len() > 0,
        forall|k: int| 0 <= k < parts.len() ==> #[trigger] parts[k].len() > 0,
    ensures
        spec_join_char(parts, c).len() > 0,
        spec_join_char(parts, c)[0] == parts[0][0],
        spec_join_char(parts, c).last() == parts.last().last(),
    decreases parts.len(),
{
    if parts.len() == 1 {
    } else {
        assert(forall|k: int|
            0 <= k < parts.skip(1).len() ==> #[trigger] parts.skip(1)[k].len() > 0) by {
            assert forall|k: int|
                0 <= k < parts.skip(1).len() implies #[trigger] parts.skip(1)[k].len() > 0 by {
                assert(parts.skip(1)[k] == parts[k + 1]);
            }
        }
        lemma_join_first_last(parts.skip(1), c);
        let j = spec_join_char(parts, c);
        let rest = spec_join_char(parts.skip(1), c);
        assert(j == parts[0] + seq![c] + rest);
        assert(j[0] == parts[0][0]);
        assert(j.last() == rest.last());
        assert(parts.skip(1).last() == parts.last());
    }
}

proof fn lemma_join_no_delim(parts: Seq<Seq<char>>)
    requires
        forall|k: int| 0 <= k < parts.len() ==> no_delim(#[trigger] parts[k]),
    ensures
        no_delim(spec_join_char(parts, '\n')),
    decreases parts.len(),
{
    if parts.len() == 0 {
        lemma_seq2_no_delim(' ', ' ');
        assert(no_delim(Seq::<char>::empty()));
    } else if parts.len() == 1 {
        assert(no_delim(parts[0]));
    } else {
        assert(forall|k: int|
            0 <= k < parts.skip(1).len() ==> no_delim(#[trigger] parts.skip(1)[k])) by {
            assert forall|k: int|
                0 <= k < parts.skip(1).len() implies no_delim(#[trigger] parts.skip(1)[k]) by {
                assert(parts.skip(1)[k] == parts[k + 1]);
            }
        }
        lemma_join_no_delim(parts.skip(1));
        lemma_seq2_no_delim('\n', '\n');
        lemma_no_delim_concat(parts[0], seq!['\n']);
        lemma_no_delim_concat(parts[0] + seq!['\n'], spec_join_char(parts.skip(1), '\n'));
        assert((parts[0] + seq!['\n']).last() == '\n');
        assert(spec_join_char(parts, '\n') =~= (parts[0] + seq!['\n']) + spec_join_char(
            parts.skip(1),
            '\n',
        ));
    }
}

proof fn lemma_yaml_lines_facts(f: FrontSpec)
    requires
        wf_front(f),
    ensures
        forall|k: int| 0 <= k < yaml_lines(f).len() ==> #[trigger] yaml_lines(f)[k].len() > 0,
        forall|k: int, j: int|
            0 <= k < yaml_lines(f).len() && 0 <= j < yaml_lines(f)[k].len()
                ==> #[trigger] yaml_lines(f)[k][j] != '\n',
        forall|k: int| 0 <= k < yaml_lines(f).len() ==> no_delim(#[trigger] yaml_lines(f)[k]),
        yaml_lines(f).len() >= 5,
        yaml_lines(f)[0] == kv_line(key_title(), quoted(f.title)),
        yaml_lines(f).last() == kv_line(key_updated_at(), f.updated_at),
{
    lemma_key_chars();
    let l_title = kv_line(key_title(), quoted(f.title));
    let l_tags = kv_line(key_tags(), tags_value(f.tags));
    let l_count = kv_line(key_use_count(), spec_dec(f.use_count as nat));
    let l_created = kv_line(key_created_at(), f.created_at);
    let l_updated = kv_line(key_updated_at(), f.updated_at);
    lemma_quoted_facts(f.title);
    lemma_kv_line_facts(key_title(), quoted(f.title));
    lemma_tags_value_facts(f.tags);
    lemma_kv_line_facts(key_tags(), tags_value(f.tags));
    lemma_dec_digits(f.use_count as nat);
    assert(no_delim(spec_dec(f.use_count as nat))) by {
        lemma_no_dash_no_delim(spec_dec(f.use_count as nat));
    }
    lemma_kv_line_facts(key_use_count(), spec_dec(f.use_count as nat));
    lemma_kv_line_facts(key_created_at(), f.created_at);
    lemma_kv_line_facts(key_updated_at(), f.updated_at);
    match f.description {
        Some(de) => {
            lemma_quoted_facts(de);
            lemma_kv_line_facts(key_description(), quoted(de));
        },
        None => {},
    }
    match f.last_used {
        Some(l) => {
            lemma_kv_line_facts(key_last_used(), l);
        },
        None => {},
    }
    let lines = yaml_lines(f);
    match f.description {
        Some(de) => {
            let l_desc = kv_line(key_description(), quoted(de));
            match f.last_used {
                Some(lu) => {
                    let l_last = kv_line(key_last_used(), lu);
                    assert(lines =~= seq![
                        l_title,
                        l_tags,
                        l_desc,
                        l_count,
                        l_last,
                        l_created,
                        l_updated,
                    ]);
                },
                None => {
                    assert(lines =~= seq![l_title, l_tags, l_desc, l_count, l_created, l_updated]);
                },
            }
        },
        None => {
            match f.last_used {
                Some(lu) => {
                    let l_last = kv_line(key_last_used(), lu);
                    assert(lines =~= seq![l_title, l_tags, l_count, l_last, l_created, l_updated]);
                },
                None => {
                    assert(lines =~= seq![l_title, l_tags, l_count, l_created, l_updated]);
                },
            }
        },
    }
}

/// Reading back an encoded header block restores the metadata exactly,
/// whatever the decode time.
pub proof fn lemma_header_round_trip(f: FrontSpec, now: Seq<char>)
    requires
        wf_front(f),
    ensures
        spec_parse_header(spec_serialize_header(f), now) == f,
{
    let lines = yaml_lines(f);
    let yaml = spec_serialize_header(f);
    lemma_yaml_lines_facts(f);
    crate::text::lemma_split_join_char(lines, '\n');
    assert(spec_split_char(yaml, '\n') == lines);
    let d0 = front_defaults(now);
    let l_title = kv_line(key_title(), quoted(f.title));
    let l_tags = kv_line(key_tags(), tags_value(f.tags));
    let l_count = kv_line(key_use_count(), spec_dec(f.use_count as nat));
    let l_created = kv_line(key_created_at(), f.created_at);
    let l_updated = kv_line(key_updated_at(), f.updated_at);
    let a1 = apply_header_line(d0, l_title);
    lemma_apply_title(d0, f.title);
    let a2 = apply_header_line(a1, l_tags);
    lemma_apply_tags(a1, f.tags);
    let a3 = match f.description {
        Some(de) => {
            lemma_apply_description(a2, de);
            apply_header_line(a2, kv_line(key_description(), quoted(de)))
        },
        None => a2,
    };
    let a4 = apply_header_line(a3, l_count);
    lemma_apply_use_count(a3, f.use_count);
    let a5 = match f.last_used {
        Some(lu) => {
            lemma_apply_last_used(a4, lu);
            apply_header_line(a4, kv_line(key_last_used(), lu))
        },
        None => a4,
    };
    let a6 = apply_header_line(a5, l_created);
    lemma_apply_created_at(a5, f.created_at);
    let a7 = apply_header_line(a6, l_updated);
    lemma_apply_updated_at(a6, f.updated_at);
    assert(a7 =~~= f);
    // fold the lines from the left, one push at a time
    match f.description {
        Some(de) => {
            let l_desc = kv_line(key_description(), quoted(de));
            match f.last_used {
                Some(lu) => {
                    let l_last = kv_line(key_last_used(), lu);
                    lemma_fold_seven(d0, l_title, l_tags, l_desc, l_count, l_last, l_created,
                        l_updated);
                    assert(lines =~= seq![
                        l_title,
                        l_tags,
                        l_desc,
                        l_count,
                        l_last,
                        l_created,
                        l_updated,
                    ]);
                },
                None => {
                    lemma_fold_six(d0, l_title, l_tags, l_desc, l_count, l_created, l_updated);
                    assert(lines =~= seq![l_title, l_tags, l_desc, l_count, l_created, l_updated]);
                },
            }
        },
        None => {
            match f.last_used {
                Some(lu) => {
                    let l_last = kv_line(key_last_used(), lu);
                    lemma_fold_six(d0, l_title, l_tags, l_count, l_last, l_created, l_updated);
                    assert(lines =~= seq![l_title, l_tags, l_count, l_last, l_created, l_updated]);
                },
                None => {
                    lemma_fold_five(d0, l_title, l_tags, l_count, l_created, l_updated);
                    assert(lines =~= seq![l_title, l_tags, l_count, l_created, l_updated]);
                },
            }
        },
    }
}

proof fn lemma_fold_one(acc: FrontSpec, x1: Seq<char>)
    ensures
        parse_header_lines(seq![x1], acc) == apply_header_line(acc, x1),
{
    assert(seq![x1][0] == x1);
    assert(seq![x1].skip(1) =~= Seq::<Seq<char>>::empty());
    assert(parse_header_lines(Seq::<Seq<char>>::empty(), apply_header_line(acc, x1))
        == apply_header_line(acc, x1));
}

proof fn lemma_fold_five(
    acc: FrontSpec,
    x1: Seq<char>,
    x2: Seq<char>,
    x3: Seq<char>,
    x4: Seq<char>,
    x5: Seq<char>,
)
    ensures
        parse_header_lines(seq![x1, x2, x3, x4, x5], acc) == apply_header_line(
            apply_header_line(
                apply_header_line(apply_header_line(apply_header_line(acc, x1), x2), x3),
                x4,
            ),
            x5,
        ),
{
    lemma_fold_one(acc, x1);
    crate::header::lemma_parse_header_lines_push(seq![x1], x2, acc);
    assert(seq![x1].push(x2) =~= seq![x1, x2]);
    crate::header::lemma_parse_header_lines_push(seq![x1, x2], x3, acc);
    assert(seq![x1, x2].push(x3) =~= seq![x1, x2, x3]);
    crate::header::lemma_parse_header_lines_push(seq![x1, x2, x3], x4, acc);
    assert(seq![x1, x2, x3].push(x4) =~= seq![x1, x2, x3, x4]);
    crate::header::lemma_parse_header_lines_push(seq![x1, x2, x3, x4], x5, acc);
    assert(seq![x1, x2, x3, x4].push(x5) =~= seq![x1, x2, x3, x4, x5]);
}

proof fn lemma_fold_six(
    acc: FrontSpec,
    x1: Seq<char>,
    x2: Seq<char>,
    x3: Seq<char>,
    x4: Seq<char>,
    x5: Seq<char>,
    x6: Seq<char>,
)
    ensures
        parse_header_lines(seq![x1, x2, x3, x4, x5, x6], acc) == apply_header_line(
            apply_header_line(
                apply_header_line(
                    apply_header_line(apply_header_line(apply_header_line(acc, x1), x2), x3),
                    x4,
                ),
                x5,
            ),
            x6,
        ),
{
    lemma_fold_five(acc, x1, x2, x3, x4, x5);
    crate::header::lemma_parse_header_lines_push(seq![x1, x2, x3, x4, x5], x6, acc);
    assert(seq![x1, x2, x3, x4, x5].push(x6) =~= seq![x1, x2, x3, x4, x5, x6]);
}

proof fn lemma_fold_seven(
    acc: FrontSpec,
    x1: Seq<char>,
    x2: Seq<char>,
    x3: Seq<char>,
    x4: Seq<char>,
    x5: Seq<char>,
    x6: Seq<char>,
    x7: Seq<char>,
)
    ensures
        parse_header_lines(seq![x1, x2, x3, x4, x5, x6, x7], acc) == apply_header_line(
            apply_header_line(
                apply_header_line(
                    apply_header_line(
                        apply_header_line(apply_header_line(apply_header_line(acc, x1), x2), x3),
                        x4,
                    ),
                    x5,
                ),
                x6,
            ),
            x7,
        ),
{
    lemma_fold_six(acc, x1, x2, x3, x4, x5, x6);
    crate::header::lemma_parse_header_lines_push(seq![x1, x2, x3, x4, x5, x6], x7, acc);
    assert(seq![x1, x2, x3, x4, x5, x6].push(x7) =~= seq![x1, x2, x3, x4, x5, x6, x7]);
}

/// Decoding undoes encoding: a well-formed document written to disk and read
/// back comes back field for field, except `file_path` and `folder`, which
/// the file does not carry — the reader supplies them — and whatever the
/// decode time was.
#[verifier::rlimit(100)]
#[verifier::spinoff_prover]
pub proof fn lemma_document_round_trip(
    d: PromptSpec,
    file_path: Seq<char>,
    folder: Seq<char>,
    now: Seq<char>,
)
    requires
        wf_prompt(d),
    ensures
        ({
            let p = spec_parse_doc(
                spec_serialize_doc(front_of_prompt(d), d.content),
                file_path,
                folder,
                now,
            );
            &&& p.title == d.title
            &&& p.content == d.content
            &&& p.tags == d.tags
            &&& p.description == d.description
            &&& p.use_count == d.use_count
            &&& p.last_used == d.last_used
            &&& p.created_at == d.created_at
            &&& p.updated_at == d.updated_at
            &&& p.file_path == file_path
            &&& p.folder == folder
        }),
{
    let f = front_of_prompt(d);
    let yaml = spec_serialize_header(f);
    let s = spec_serialize_doc(f, d.content);
    let lines = yaml_lines(f);
    lemma_yaml_lines_facts(f);
    lemma_join_no_delim(lines);
    lemma_join_first_last(lines, '\n');
    assert(yaml[0] == key_title()[0]);
    assert(yaml.last() == kv_line(key_updated_at(), f.updated_at).last());
    assert(kv_line(key_updated_at(), f.updated_at).last() == f.updated_at.last());
    let nl = yaml.len() as int;

    // the serialized text, written out around the header block
    let rest = seq!['\n'] + yaml + seq!['\n'] + delim() + seq!['\n', '\n'] + d.content;
    assert(s =~= delim() + rest);
    assert(s.skip(3) =~= rest);

    // the first delimiter stands at the very front
    assert(s.subrange(0, 3) =~= delim());
    assert(match_at(s, delim(), 0));
    lemma_find_sub(s, delim());
    let fs = spec_find_sub(s, delim());
    assert(fs is Some);
    if let Some(k) = fs {
        assert(k == 0) by {
            if k > 0 {
                assert(!match_at(s, delim(), 0));
            }
        }
    }
    assert(spec_find_sub(s, delim()) == Some(0int));

    // the second stands right after the header block, and nowhere earlier
    let pos = nl + 2;
    assert(rest.subrange(pos, pos + 3) =~= delim());
    assert(match_at(rest, delim(), pos));
    assert(rest[0] == '\n');
    assert(rest[nl + 1] == '\n');
    assert(forall|m: int| 0 <= m < nl ==> rest[1 + m] == yaml[m]);
    assert forall|j: int| 0 <= j < pos implies !match_at(rest, delim(), j) by {
        lemma_dash3_is_match(rest, j);
        if j == 0 {
            assert(!dash3_at(rest, j));
        } else if j + 3 <= nl + 1 {
            assert(rest[j] == yaml[j - 1]);
            assert(rest[j + 1] == yaml[j]);
            assert(rest[j + 2] == yaml[j + 1]);
            assert(!dash3_at(yaml, j - 1));
            assert(!dash3_at(rest, j));
        } else {
            // the window covers the newline that closes the header block
            assert(j <= nl + 1 <= j + 2);
            assert(!dash3_at(rest, j));
        }
    }
    lemma_find_sub(rest, delim());
    let fr = spec_find_sub(rest, delim());
    assert(fr is Some) by {
        if fr is None {
            assert(!match_at(rest, delim(), pos));
        }
    }
    if let Some(k) = fr {
        assert(k == pos) by {
            if k < pos {
                assert(!match_at(rest, delim(), k));
            }
            if k > pos {
                assert(!match_at(rest, delim(), pos));
            }
        }
    }
    assert(spec_find_sub(rest, delim()) == Some(pos));

    // the three parts the decoder sees
    let part1 = rest.take(pos);
    let part2 = rest.skip(pos + 3);
    assert(crate::document::spec_splitn3(s, delim()) == seq![s.take(0), part1, part2]);
    assert(part1 =~= seq!['\n'] + (yaml + seq!['\n']));
    assert(part2 =~= seq!['\n'] + (seq!['\n'] + d.content));

    // the header block comes back trimmed of the newlines around it
    lemma_trim_start_one('\n', yaml + seq!['\n']);
    assert((yaml + seq!['\n'])[0] == yaml[0]);
    lemma_key_chars();
    assert(key_char(key_title()[0]));
    lemma_key_char_props(key_title()[0]);
    assert(spec_trim_start(yaml + seq!['\n']) == yaml + seq!['\n']);
    assert((yaml + seq!['\n']).last() == '\n');
    assert((yaml + seq!['\n']).drop_last() =~= yaml);
    assert(spec_trim_end(yaml + seq!['\n']) == spec_trim_end(yaml));
    lemma_trim_end_noop(yaml);
    assert(spec_trim(part1) == yaml);

    // the body comes back trimmed of the blank line before it
    lemma_trim_start_one('\n', seq!['\n'] + d.content);
    lemma_trim_start_one('\n', d.content);
    lemma_trim_start_noop(d.content);
    lemma_trim_end_noop(d.content);
    assert(spec_trim(part2) == d.content);

    // the header fields come back exactly
    lemma_header_round_trip(f, now);
    assert(spec_parse_header(spec_trim(part1), now) == f);

    // the encoded title is never blank, so the filename fallback is not taken
    lemma_trim_noop(f.title);
    assert(spec_trim(f.title).len() > 0);
}

/// Fallback decode: a file that holds no delimiter at all decodes as
/// body-only. The title is the filename stem (or the untitled placeholder),
/// the body is the trimmed input, everything else is defaulted and both
/// timestamps are the decode time.
pub proof fn lemma_fallback_decode(
    content: Seq<char>,
    file_path: Seq<char>,
    folder: Seq<char>,
    now: Seq<char>,
)
    requires
        !has_sub(content, delim()),
    ensures
        ({
            let p = spec_parse_doc(content, file_path, folder, now);
            &&& p.title == (match spec_file_stem(file_path) {
                Some(st) => st,
                None => untitled(),
            })
            &&& p.content == spec_trim(content)
            &&& p.tags == Seq::<Seq<char>>::empty()
            &&& p.description is None
            &&& p.use_count == 0
            &&& p.last_used is None
            &&& p.created_at == now
            &&& p.updated_at == now
        }),
{
    lemma_find_sub(content, delim());
    match spec_find_sub(content, delim()) {
        None => {
            assert(crate::document::spec_splitn3(content, delim()).len() == 1);
        },
        Some(i) => {
            assert(match_at(content, delim(), i));
            assert(has_sub(content, delim()));
        },
    }
}

} // verus!
