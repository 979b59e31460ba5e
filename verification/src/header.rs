//! The header codec: a restricted `key: value` block, one scalar or one flat
//! list per line. Encoding is deterministic and order-stable; decoding is
//! defensive and never fails, skipping what it cannot read and defaulting
//! what is missing.
use vstd::prelude::*;
use crate::model::{FrontSpec, PromptFrontmatter};
use crate::num::{spec_dec, spec_parse_u32, push_dec_u64, parse_u32};
use crate::text::{
    spec_trim, spec_trim_matches, spec_find_char, spec_split_char, spec_join_char, trim_vec,
    trim_matches_vec, find_char_from, split_char, subvec, extend_chars, extend_str, vec_eq,
    string_of, chars_of, lemma_find_char_is, lemma_find_char_is_none,
};
use crate::error::AppError;
use crate::time::{generate_timestamp, spec_format_ts};

verus! {

pub open spec fn key_title() -> Seq<char> {
    seq!['t', 'i', 't', 'l', 'e']
}

pub open spec fn key_tags() -> Seq<char> {
    seq!['t', 'a', 'g', 's']
}

pub open spec fn key_description() -> Seq<char> {
    seq!['d', 'e', 's', 'c', 'r', 'i', 'p', 't', 'i', 'o', 'n']
}

pub open spec fn key_use_count() -> Seq<char> {
    seq!['u', 's', 'e', '_', 'c', 'o', 'u', 'n', 't']
}

pub open spec fn key_last_used() -> Seq<char> {
    seq!['l', 'a', 's', 't', '_', 'u', 's', 'e', 'd']
}

pub open spec fn key_created_at() -> Seq<char> {
    seq!['c', 'r', 'e', 'a', 't', 'e', 'd', '_', 'a', 't']
}

pub open spec fn key_updated_at() -> Seq<char> {
    seq!['u', 'p', 'd', 'a', 't', 'e', 'd', '_', 'a', 't']
}

fn title_key() -> (r: Vec<char>)
    ensures
        r@ == key_title(),
{
    let mut v: Vec<char> = Vec::new();
    v.push('t');
    v.push('i');
    v.push('t');
    v.push('l');
    v.push('e');
    proof {
        assert(v@ =~= key_title());
    }
    v
}

fn tags_key() -> (r: Vec<char>)
    ensures
        r@ == key_tags(),
{
    let mut v: Vec<char> = Vec::new();
    v.push('t');
    v.push('a');
    v.push('g');
    v.push('s');
    proof {
        assert(v@ =~= key_tags());
    }
    v
}

fn description_key() -> (r: Vec<char>)
    ensures
        r@ == key_description(),
{
    let mut v: Vec<char> = Vec::new();
    v.push('d');
    v.push('e');
    v.push('s');
    v.push('c');
    v.push('r');
    v.push('i');
    v.push('p');
    v.push('t');
    v.push('i');
    v.push('o');
    v.push('n');
    proof {
        assert(v@ =~= key_description());
    }
    v
}

fn use_count_key() -> (r: Vec<char>)
    ensures
        r@ == key_use_count(),
{
    let mut v: Vec<char> = Vec::new();
    v.push('u');
    v.push('s');
    v.push('e');
    v.push('_');
    v.push('c');
    v.push('o');
    v.push('u');
    v.push('n');
    v.push('t');
    proof {
        assert(v@ =~= key_use_count());
    }
    v
}

fn last_used_key() -> (r: Vec<char>)
    ensures
        r@ == key_last_used(),
{
    let mut v: Vec<char> = Vec::new();
    v.push('l');
    v.push('a');
    v.push('s');
    v.push('t');
    v.push('_');
    v.push('u');
    v.push('s');
    v.push('e');
    v.push('d');
    proof {
        assert(v@ =~= key_last_used());
    }
    v
}

fn created_at_key() -> (r: Vec<char>)
    ensures
        r@ == key_created_at(),
{
    let mut v: Vec<char> = Vec::new();
    v.push('c');
    v.push('r');
    v.push('e');
    v.push('a');
    v.push('t');
    v.push('e');
    v.push('d');
    v.push('_');
    v.push('a');
    v.push('t');
    proof {
        assert(v@ =~= key_created_at());
    }
    v
}

fn updated_at_key() -> (r: Vec<char>)
    ensures
        r@ == key_updated_at(),
{
    let mut v: Vec<char> = Vec::new();
    v.push('u');
    v.push('p');
    v.push('d');
    v.push('a');
    v.push('t');
    v.push('e');
    v.push('d');
    v.push('_');
    v.push('a');
    v.push('t');
    proof {
        assert(v@ =~= key_updated_at());
    }
    v
}

/// `s` wrapped in double quotes.
pub open spec fn quoted(s: Seq<char>) -> Seq<char> {
    seq!['"'] + s + seq!['"']
}

/// One header line: the key, a colon and a space, then the value.
pub open spec fn kv_line(key: Seq<char>, value: Seq<char>) -> Seq<char> {
    key + seq![':', ' '] + value
}

/// The quoted tags joined with `", "`.
pub open spec fn tags_inner(tags: Seq<Seq<char>>) -> Seq<char>
    decreases tags.len(),
{
    if tags.len() == 0 {
        Seq::empty()
    } else if tags.len() == 1 {
        quoted(tags[0])
    } else {
        quoted(tags[0]) + seq![',', ' '] + tags_inner(tags.skip(1))
    }
}

/// The encoded tag list, `[` inner `]`.
pub open spec fn tags_value(tags: Seq<Seq<char>>) -> Seq<char> {
    seq!['['] + tags_inner(tags) + seq![']']
}

/// The encoded header lines, in their fixed order: title, tags, description
/// when present, use count, last-used when present, created, updated.
pub open spec fn yaml_lines(f: FrontSpec) -> Seq<Seq<char>> {
    seq![kv_line(key_title(), quoted(f.title)), kv_line(key_tags(), tags_value(f.tags))] + (
    match f.description {
        Some(d) => seq![kv_line(key_description(), quoted(d))],
        None => Seq::empty(),
    }) + seq![kv_line(key_use_count(), spec_dec(f.use_count as nat))] + (match f.last_used {
        Some(l) => seq![kv_line(key_last_used(), l)],
        None => Seq::empty(),
    }) + seq![kv_line(key_created_at(), f.created_at), kv_line(key_updated_at(), f.updated_at)]
}

/// The encoded header block: the lines joined with newlines, no trailing
/// newline.
pub open spec fn spec_serialize_header(f: FrontSpec) -> Seq<char> {
    spec_join_char(yaml_lines(f), '\n')
}

/// Appending one tag extends the joined tag text by a separator (when
/// something precedes) and the quoted tag.
proof fn lemma_tags_inner_push(s: Seq<Seq<char>>, t: Seq<char>)
    ensures
        tags_inner(s.push(t)) == if s.len() == 0 {
            quoted(t)
        } else {
            tags_inner(s) + seq![',', ' '] + quoted(t)
        },
    decreases s.len(),
{
    if s.len() == 0 {
        assert(s.push(t).len() == 1);
        assert(s.push(t)[0] == t);
    } else {
        assert(s.push(t).skip(1) =~= s.skip(1).push(t));
        lemma_tags_inner_push(s.skip(1), t);
        if s.len() == 1 {
            assert(tags_inner(s.push(t)) =~= tags_inner(s) + seq![',', ' '] + quoted(t));
        } else {
            assert(tags_inner(s.push(t)) =~= tags_inner(s) + seq![',', ' '] + quoted(t));
        }
    }
}

fn copy_chars(v: &Vec<char>) -> (r: Vec<char>)
    ensures
        r@ == v@,
{
    let mut r: Vec<char> = Vec::new();
    extend_chars(&mut r, v);
    r
}

fn join_from(parts: &Vec<Vec<char>>, c: char, i: usize) -> (r: Vec<char>)
    requires
        i <= parts@.len(),
    ensures
        r@ == spec_join_char(parts.deep_view().skip(i as int), c),
    decreases parts@.len() - i,
{
    let n = parts.len();
    if i == n {
        let r: Vec<char> = Vec::new();
        proof {
            assert(parts.deep_view().skip(i as int) =~= Seq::<Seq<char>>::empty());
        }
        r
    } else if i + 1 == n {
        let r = copy_chars(&parts[i]);
        proof {
            let dv = parts.deep_view();
            assert(dv.skip(i as int).len() == 1);
            assert(dv.skip(i as int)[0] == dv[i as int]);
            assert(parts@[i as int].deep_view() =~= parts@[i as int]@);
        }
        r
    } else {
        let mut r = copy_chars(&parts[i]);
        r.push(c);
        let rest = join_from(parts, c, i + 1);
        extend_chars(&mut r, &rest);
        proof {
            let dv = parts.deep_view();
            assert(dv.skip(i as int).len() >= 2);
            assert(dv.skip(i as int)[0] == dv[i as int]);
            assert(parts@[i as int].deep_view() =~= parts@[i as int]@);
            assert(dv.skip(i as int).skip(1) =~= dv.skip(i as int + 1));
            assert(r@ =~= spec_join_char(dv.skip(i as int), c));
        }
        r
    }
}

/// The lines joined with the separator `c`.
fn join_lines(parts: &Vec<Vec<char>>, c: char) -> (r: Vec<char>)
    ensures
        r@ == spec_join_char(parts.deep_view(), c),
{
    let r = join_from(parts, c, 0);
    proof {
        assert(parts.deep_view().skip(0) =~= parts.deep_view());
    }
    r
}

/// The header block of the given metadata, as written to disk.
pub fn serde_yaml_serialize(frontmatter: &PromptFrontmatter) -> (r: String)
    ensures
        r@ == spec_serialize_header(frontmatter@),
{
    let mut lines: Vec<Vec<char>> = Vec::new();

    let mut title_line = title_key();
    title_line.push(':');
    title_line.push(' ');
    title_line.push('"');
    extend_str(&mut title_line, frontmatter.title.as_str());
    title_line.push('"');
    proof {
        assert(title_line@ =~= kv_line(key_title(), quoted(frontmatter.title@)));
    }
    lines.push(title_line);

    let mut inner: Vec<char> = Vec::new();
    let ghost tags_dv = frontmatter.tags.deep_view();
    let mut i: usize = 0;
    while i < frontmatter.tags.len()
        invariant
            i <= frontmatter.tags@.len(),
            tags_dv == frontmatter.tags.deep_view(),
            tags_dv.len() == frontmatter.tags@.len(),
            inner@ == tags_inner(tags_dv.take(i as int)),
        decreases frontmatter.tags@.len() - i,
    {
        if i > 0 {
            inner.push(',');
            inner.push(' ');
        }
        inner.push('"');
        extend_str(&mut inner, frontmatter.tags[i].as_str());
        inner.push('"');
        proof {
            assert(tags_dv[i as int] == frontmatter.tags@[i as int]@);
            lemma_tags_inner_push(tags_dv.take(i as int), tags_dv[i as int]);
            assert(tags_dv.take(i as int).push(tags_dv[i as int]) =~= tags_dv.take(i as int + 1));
            assert(inner@ =~= tags_inner(tags_dv.take(i as int + 1)));
        }
        i = i + 1;
    }
    proof {
        assert(tags_dv.take(frontmatter.tags@.len() as int) =~= tags_dv);
    }
    let mut tags_line = tags_key();
    tags_line.push(':');
    tags_line.push(' ');
    tags_line.push('[');
    extend_chars(&mut tags_line, &inner);
    tags_line.push(']');
    proof {
        assert(tags_line@ =~= kv_line(key_tags(), tags_value(tags_dv)));
    }
    lines.push(tags_line);

    match &frontmatter.description {
        Some(desc) => {
            let mut desc_line = description_key();
            desc_line.push(':');
            desc_line.push(' ');
            desc_line.push('"');
            extend_str(&mut desc_line, desc.as_str());
            desc_line.push('"');
            proof {
                assert(desc_line@ =~= kv_line(key_description(), quoted(desc@)));
            }
            lines.push(desc_line);
        },
        None => {},
    }

    let mut count_line = use_count_key();
    count_line.push(':');
    count_line.push(' ');
    push_dec_u64(&mut count_line, frontmatter.use_count as u64);
    proof {
        assert(count_line@ =~= kv_line(key_use_count(), spec_dec(frontmatter.use_count as nat)));
    }
    lines.push(count_line);

    match &frontmatter.last_used {
        Some(last) => {
            let mut last_line = last_used_key();
            last_line.push(':');
            last_line.push(' ');
            extend_str(&mut last_line, last.as_str());
            proof {
                assert(last_line@ =~= kv_line(key_last_used(), last@));
            }
            lines.push(last_line);
        },
        None => {},
    }

    let mut created_line = created_at_key();
    created_line.push(':');
    created_line.push(' ');
    extend_str(&mut created_line, frontmatter.created_at.as_str());
    proof {
        assert(created_line@ =~= kv_line(key_created_at(), frontmatter.created_at@));
    }
    lines.push(created_line);

    let mut updated_line = updated_at_key();
    updated_line.push(':');
    updated_line.push(' ');
    extend_str(&mut updated_line, frontmatter.updated_at.as_str());
    proof {
        assert(updated_line@ =~= kv_line(key_updated_at(), frontmatter.updated_at@));
    }
    lines.push(updated_line);

    proof {
        if frontmatter@.description is Some && frontmatter@.last_used is Some {
            assert(lines.deep_view() =~~= yaml_lines(frontmatter@));
        } else if frontmatter@.description is Some {
            assert(lines.deep_view() =~~= yaml_lines(frontmatter@));
        } else if frontmatter@.last_used is Some {
            assert(lines.deep_view() =~~= yaml_lines(frontmatter@));
        } else {
            assert(lines.deep_view() =~~= yaml_lines(frontmatter@));
        }
    }
    let joined = join_lines(&lines, '\n');
    string_of(&joined)
}

/// The metadata before any line is read: everything empty or absent, both
/// timestamps the decode time.
pub open spec fn front_defaults(now: Seq<char>) -> FrontSpec {
    FrontSpec {
        title: Seq::empty(),
        tags: Seq::empty(),
        description: None,
        use_count: 0,
        last_used: None,
        created_at: now,
        updated_at: now,
    }
}

/// One element of an encoded tag list: trimmed, then stripped of surrounding
/// double quotes, then of surrounding single quotes.
pub open spec fn parse_tag_elem(e: Seq<char>) -> Seq<char> {
    spec_trim_matches(spec_trim_matches(spec_trim(e), '"'), '\'')
}

/// The tags read from the comma-split elements, empty elements dropped.
pub open spec fn parse_tag_list(elems: Seq<Seq<char>>) -> Seq<Seq<char>>
    decreases elems.len(),
{
    if elems.len() == 0 {
        Seq::empty()
    } else {
        let e = parse_tag_elem(elems[0]);
        let rest = parse_tag_list(elems.skip(1));
        if e.len() > 0 {
            seq![e] + rest
        } else {
            rest
        }
    }
}

proof fn lemma_parse_tag_list_push(s: Seq<Seq<char>>, x: Seq<char>)
    ensures
        parse_tag_list(s.push(x)) == if parse_tag_elem(x).len() > 0 {
            parse_tag_list(s).push(parse_tag_elem(x))
        } else {
            parse_tag_list(s)
        },
    decreases s.len(),
{
    if s.len() == 0 {
        assert(s.push(x)[0] == x);
        assert(s.push(x).skip(1) =~= Seq::<Seq<char>>::empty());
        assert(parse_tag_list(Seq::<Seq<char>>::empty()) == Seq::<Seq<char>>::empty());
        assert(s =~= Seq::<Seq<char>>::empty());
        if parse_tag_elem(x).len() > 0 {
            assert(parse_tag_list(s.push(x)) =~= parse_tag_list(s).push(parse_tag_elem(x)));
        }
    } else {
        assert(s.push(x)[0] == s[0]);
        assert(s.push(x).skip(1) =~= s.skip(1).push(x));
        lemma_parse_tag_list_push(s.skip(1), x);
        if parse_tag_elem(x).len() > 0 {
            assert(parse_tag_list(s.push(x)) =~= parse_tag_list(s).push(parse_tag_elem(x)));
        }
    }
}

/// The tag list read from a `tags` value, when the value is bracketed.
pub open spec fn parse_tags_value(value: Seq<char>) -> Option<Seq<Seq<char>>> {
    if value.len() > 0 && value[0] == '[' && value.last() == ']' {
        Some(parse_tag_list(spec_split_char(value.subrange(1, value.len() - 1), ',')))
    } else {
        None
    }
}

/// The effect of one header line on the metadata read so far. Blank lines,
/// comment lines, lines without a colon and unknown keys change nothing.
pub open spec fn apply_header_line(acc: FrontSpec, line: Seq<char>) -> FrontSpec {
    let l = spec_trim(line);
    if l.len() == 0 || l[0] == '#' {
        acc
    } else {
        match spec_find_char(l, ':') {
            None => acc,
            Some(i) => {
                let key = spec_trim(l.take(i));
                let value = spec_trim(l.skip(i + 1));
                if key == key_title() {
                    FrontSpec { title: spec_trim_matches(value, '"'), ..acc }
                } else if key == key_tags() {
                    match parse_tags_value(value) {
                        Some(ts) => FrontSpec { tags: ts, ..acc },
                        None => acc,
                    }
                } else if key == key_description() {
                    FrontSpec { description: Some(spec_trim_matches(value, '"')), ..acc }
                } else if key == key_use_count() {
                    FrontSpec {
                        use_count: match spec_parse_u32(value) {
                            Some(n) => n,
                            None => 0,
                        },
                        ..acc
                    }
                } else if key == key_last_used() {
                    FrontSpec { last_used: Some(value), ..acc }
                } else if key == key_created_at() {
                    FrontSpec { created_at: value, ..acc }
                } else if key == key_updated_at() {
                    FrontSpec { updated_at: value, ..acc }
                } else {
                    acc
                }
            },
        }
    }
}

/// The metadata after reading the lines in order.
pub open spec fn parse_header_lines(lines: Seq<Seq<char>>, acc: FrontSpec) -> FrontSpec
    decreases lines.len(),
{
    if lines.len() == 0 {
        acc
    } else {
        parse_header_lines(lines.skip(1), apply_header_line(acc, lines[0]))
    }
}

pub proof fn lemma_parse_header_lines_push(s: Seq<Seq<char>>, x: Seq<char>, acc: FrontSpec)
    ensures
        parse_header_lines(s.push(x), acc) == apply_header_line(parse_header_lines(s, acc), x),
    decreases s.len(),
{
    if s.len() == 0 {
        assert(s.push(x)[0] == x);
        assert(s.push(x).skip(1) =~= Seq::<Seq<char>>::empty());
        assert(parse_header_lines(Seq::<Seq<char>>::empty(), apply_header_line(acc, x))
            == apply_header_line(acc, x));
        assert(s =~= Seq::<Seq<char>>::empty());
        assert(parse_header_lines(s, acc) == acc);
    } else {
        assert(s.push(x)[0] == s[0]);
        assert(s.push(x).skip(1) =~= s.skip(1).push(x));
        lemma_parse_header_lines_push(s.skip(1), x, apply_header_line(acc, s[0]));
    }
}

/// The metadata read from a raw header block, with `now` as the default for
/// both timestamps.
pub open spec fn spec_parse_header(s: Seq<char>, now: Seq<char>) -> FrontSpec {
    parse_header_lines(spec_split_char(s, '\n'), front_defaults(now))
}

/// Equal everywhere the decode time cannot reach: on everything but the two
/// timestamps.
pub open spec fn agrees_outside_times(a: FrontSpec, b: FrontSpec) -> bool {
    &&& a.title == b.title
    &&& a.tags == b.tags
    &&& a.description == b.description
    &&& a.use_count == b.use_count
    &&& a.last_used == b.last_used
}

proof fn lemma_apply_line_now_agnostic(a: FrontSpec, b: FrontSpec, line: Seq<char>)
    requires
        agrees_outside_times(a, b),
    ensures
        agrees_outside_times(apply_header_line(a, line), apply_header_line(b, line)),
{
}

proof fn lemma_fold_now_agnostic(lines: Seq<Seq<char>>, a: FrontSpec, b: FrontSpec)
    requires
        agrees_outside_times(a, b),
    ensures
        agrees_outside_times(parse_header_lines(lines, a), parse_header_lines(lines, b)),
    decreases lines.len(),
{
    if lines.len() > 0 {
        lemma_apply_line_now_agnostic(a, b, lines[0]);
        lemma_fold_now_agnostic(
            lines.skip(1),
            apply_header_line(a, lines[0]),
            apply_header_line(b, lines[0]),
        );
    }
}

/// The decode time reaches only the two timestamp defaults: every other
/// field of a decoded header is the same whatever the time was.
pub proof fn lemma_parse_header_now_agnostic(s: Seq<char>, n1: Seq<char>, n2: Seq<char>)
    ensures
        agrees_outside_times(spec_parse_header(s, n1), spec_parse_header(s, n2)),
{
    lemma_fold_now_agnostic(spec_split_char(s, '\n'), front_defaults(n1), front_defaults(n2));
}

fn apply_line(acc: PromptFrontmatter, line: &Vec<char>) -> (r: PromptFrontmatter)
    ensures
        r@ == apply_header_line(acc@, line@),
{
    let ghost orig = acc@;
    let mut acc = acc;
    let l = trim_vec(line);
    if l.len() == 0 {
        return acc;
    }
    if l[0] == '#' {
        return acc;
    }
    let found = find_char_from(&l, ':', 0);
    match found {
        None => {
            proof {
                lemma_find_char_is_none(l@, ':');
            }
            acc
        },
        Some(k) => {
            proof {
                lemma_find_char_is(l@, ':', k as int);
            }
            let key = trim_vec(&subvec(&l, 0, k));
            let value = trim_vec(&subvec(&l, k + 1, l.len()));
            proof {
                assert(l@.subrange(0, k as int) =~= l@.take(k as int));
                assert(l@.subrange(k as int + 1, l@.len() as int) =~= l@.skip(k as int + 1));
            }
            if vec_eq(&key, &title_key()) {
                acc.title = string_of(&trim_matches_vec(&value, '"'));
                proof {
                    assert(acc@ =~~= apply_header_line(orig, line@));
                }
                acc
            } else if vec_eq(&key, &tags_key()) {
                let value_len = value.len();
                if value_len > 0 && value[0] == '[' && value[value_len - 1] == ']' {
                    let inner = subvec(&value, 1, value.len() - 1);
                    let pieces = split_char(&inner, ',');
                    let ghost pdv = pieces.deep_view();
                    let mut tags: Vec<String> = Vec::new();
                    let mut i: usize = 0;
                    while i < pieces.len()
                        invariant
                            i <= pieces@.len(),
                            pdv == pieces.deep_view(),
                            pdv.len() == pieces@.len(),
                            tags.deep_view() == parse_tag_list(pdv.take(i as int)),
                        decreases pieces@.len() - i,
                    {
                        let e = trim_matches_vec(
                            &trim_matches_vec(&trim_vec(&pieces[i]), '"'),
                            '\'',
                        );
                        proof {
                            assert(pdv[i as int] == pieces@[i as int]@);
                        }
                        if e.len() > 0 {
                            tags.push(string_of(&e));
                        }
                        proof {
                            lemma_parse_tag_list_push(pdv.take(i as int), pdv[i as int]);
                            assert(pdv.take(i as int).push(pdv[i as int]) =~= pdv.take(
                                i as int + 1,
                            ));
                            assert(tags.deep_view() =~= parse_tag_list(pdv.take(i as int + 1)));
                        }
                        i = i + 1;
                    }
                    proof {
                        assert(pdv.take(pieces@.len() as int) =~= pdv);
                    }
                    acc.tags = tags;
                    proof {
                        assert(acc@ =~~= apply_header_line(orig, line@));
                    }
                    acc
                } else {
                    acc
                }
            } else if vec_eq(&key, &description_key()) {
                acc.description = Some(string_of(&trim_matches_vec(&value, '"')));
                proof {
                    assert(acc@ =~~= apply_header_line(orig, line@));
                }
                acc
            } else if vec_eq(&key, &use_count_key()) {
                acc.use_count = match parse_u32(&value) {
                    Some(n) => n,
                    None => 0,
                };
                proof {
                    assert(acc@ =~~= apply_header_line(orig, line@));
                }
                acc
            } else if vec_eq(&key, &last_used_key()) {
                acc.last_used = Some(string_of(&value));
                proof {
                    assert(acc@ =~~= apply_header_line(orig, line@));
                }
                acc
            } else if vec_eq(&key, &created_at_key()) {
                acc.created_at = string_of(&value);
                proof {
                    assert(acc@ =~~= apply_header_line(orig, line@));
                }
                acc
            } else if vec_eq(&key, &updated_at_key()) {
                acc.updated_at = string_of(&value);
                proof {
                    assert(acc@ =~~= apply_header_line(orig, line@));
                }
                acc
            } else {
                acc
            }
        },
    }
}

/// The metadata read from a raw header block, with `now` as the default for
/// both timestamps.
pub fn parse_frontmatter(yaml: &Vec<char>, now: &str) -> (r: PromptFrontmatter)
    ensures
        r@ == spec_parse_header(yaml@, now@),
{
    let lines = split_char(yaml, '\n');
    let ghost ldv = lines.deep_view();
    let mut acc = PromptFrontmatter {
        title: String::new(),
        tags: Vec::new(),
        description: None,
        use_count: 0,
        last_used: None,
        created_at: String::from_str(now),
        updated_at: String::from_str(now),
    };
    proof {
        assert(acc@ =~~= front_defaults(now@));
    }
    let mut i: usize = 0;
    while i < lines.len()
        invariant
            i <= lines@.len(),
            ldv == lines.deep_view(),
            ldv.len() == lines@.len(),
            ldv == spec_split_char(yaml@, '\n'),
            acc@ == parse_header_lines(ldv.take(i as int), front_defaults(now@)),
        decreases lines@.len() - i,
    {
        proof {
            assert(ldv[i as int] == lines@[i as int]@);
        }
        acc = apply_line(acc, &lines[i]);
        proof {
            lemma_parse_header_lines_push(ldv.take(i as int), ldv[i as int], front_defaults(now@));
            assert(ldv.take(i as int).push(ldv[i as int]) =~= ldv.take(i as int + 1));
        }
        i = i + 1;
    }
    proof {
        assert(ldv.take(lines@.len() as int) =~= ldv);
    }
    acc
}

/// The metadata read from a raw header block. The decode never fails; when a
/// timestamp line is missing, its field defaults to the moment of the call
/// in the fixed calendar form `YYYY-MM-DDTHH:MM:SSZ` — the only thing the
/// clock can reach.
pub fn serde_yaml_parse(yaml_str: &str) -> (r: Result<PromptFrontmatter, AppError>)
    ensures
        r is Ok,
        r matches Ok(f) ==> exists|s: u64|
            f@ == spec_parse_header(yaml_str@, spec_format_ts(s as nat)),
        r matches Ok(f) ==> agrees_outside_times(f@, spec_parse_header(yaml_str@, Seq::empty())),
{
    let now = generate_timestamp();
    let chars = chars_of(yaml_str);
    let f = parse_frontmatter(&chars, now.as_str());
    proof {
        let s = choose|s: u64| now@ == spec_format_ts(s as nat);
        assert(f@ == spec_parse_header(yaml_str@, spec_format_ts(s as nat)));
        lemma_parse_header_now_agnostic(yaml_str@, now@, Seq::empty());
    }
    Ok(f)
}

} // verus!
