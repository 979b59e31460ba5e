//! The document codec: a file is a header block wrapped in `---` delimiter
//! lines, a blank line, then the body. A file without two delimiters decodes
//! as body-only, with the filename stem as title — decoding never fails.
use vstd::prelude::*;
use crate::error::AppError;
use crate::header::{
    spec_parse_header, spec_serialize_header, parse_frontmatter, serde_yaml_serialize,
};
use crate::model::{FrontSpec, PromptFrontmatter, PromptItem, PromptSpec};
use crate::text::{
    spec_trim, spec_find_sub, match_at, lemma_find_sub, trim_vec, subvec, extend_chars, extend_str,
    chars_of, string_of, find_sub,
};
use crate::time::{generate_timestamp, spec_format_ts};

verus! {

/// The delimiter token that wraps the header block.
pub open spec fn delim() -> Seq<char> {
    seq!['-', '-', '-']
}

fn delim_vec() -> (r: Vec<char>)
    ensures
        r@ == delim(),
{
    let mut v: Vec<char> = Vec::new();
    v.push('-');
    v.push('-');
    v.push('-');
    proof {
        assert(v@ =~= delim());
    }
    v
}

/// The position of the last occurrence of `c` in `s`, if any.
pub open spec fn spec_rfind_char(s: Seq<char>, c: char) -> Option<int>
    decreases s.len(),
{
    if s.len() == 0 {
        None
    } else if s.last() == c {
        Some(s.len() - 1)
    } else {
        spec_rfind_char(s.drop_last(), c)
    }
}

/// The position of the last occurrence of `c` in `v`, if any.
pub fn rfind_char(v: &Vec<char>, c: char) -> (r: Option<usize>)
    ensures
        r matches Some(i) ==> spec_rfind_char(v@, c) == Some(i as int) && i < v@.len(),
        r is None ==> spec_rfind_char(v@, c) is None,
{
    let n = v.len();
    let mut j: usize = n;
    proof {
        assert(v@.take(n as int) =~= v@);
    }
    while j > 0
        invariant
            j <= n,
            n == v@.len(),
            spec_rfind_char(v@, c) == spec_rfind_char(v@.take(j as int), c),
        decreases j,
    {
        if v[j - 1] == c {
            proof {
                assert(v@.take(j as int).last() == v@[j - 1]);
            }
            return Some(j - 1);
        }
        proof {
            assert(v@.take(j as int).drop_last() =~= v@.take(j as int - 1));
        }
        j = j - 1;
    }
    proof {
        assert(v@.take(0) =~= Seq::<char>::empty());
    }
    None
}

/// The part of a path after its last separator.
pub open spec fn spec_base_name(p: Seq<char>) -> Seq<char> {
    match spec_rfind_char(p, '/') {
        None => p,
        Some(i) => p.skip(i + 1),
    }
}

/// The filename stem: the base name with its extension stripped, where an
/// extension is what follows a dot that is not the first character. An empty
/// base name has no stem.
pub open spec fn spec_file_stem(p: Seq<char>) -> Option<Seq<char>> {
    let name = spec_base_name(p);
    if name.len() == 0 {
        None
    } else {
        match spec_rfind_char(name, '.') {
            Some(k) => if k > 0 {
                Some(name.take(k))
            } else {
                Some(name)
            },
            None => Some(name),
        }
    }
}

/// The id a file decodes under when its path yields no stem.
pub open spec fn unknown_id() -> Seq<char> {
    seq!['u', 'n', 'k', 'n', 'o', 'w', 'n']
}

/// The title a file decodes under when its path yields no stem: the
/// "untitled" placeholder.
pub open spec fn untitled() -> Seq<char> {
    seq!['未', '命', '名']
}

/// The filename stem of `p`, as a vector.
fn file_stem_vec(p: &Vec<char>) -> (r: Option<Vec<char>>)
    ensures
        r matches Some(v) ==> spec_file_stem(p@) == Some(v@),
        r is None ==> spec_file_stem(p@) is None,
{
    let n = p.len();
    let name = match rfind_char(p, '/') {
        Some(i) => subvec(p, i + 1, n),
        None => subvec(p, 0, n),
    };
    proof {
        assert(p@.subrange(0, p@.len() as int) =~= p@);
        assert(name@ == spec_base_name(p@));
    }
    if name.len() == 0 {
        return None;
    }
    match rfind_char(&name, '.') {
        Some(k) => {
            if k > 0 {
                let stem = subvec(&name, 0, k);
                proof {
                    assert(stem@ =~= name@.take(k as int));
                }
                Some(stem)
            } else {
                Some(name)
            }
        },
        None => Some(name),
    }
}

/// How a raw file decodes: at most two delimiter splits. Fewer than three
/// parts means the whole file is body; otherwise the middle part is the
/// header block and the rest is the body.
pub open spec fn spec_splitn3(s: Seq<char>, pat: Seq<char>) -> Seq<Seq<char>> {
    match spec_find_sub(s, pat) {
        None => seq![s],
        Some(i) => {
            let rest = s.skip(i + pat.len());
            match spec_find_sub(rest, pat) {
                None => seq![s.take(i), rest],
                Some(j) => seq![s.take(i), rest.take(j), rest.skip(j + pat.len())],
            }
        },
    }
}

/// The document read from a raw file. `now` is the decode time, used for the
/// timestamps whenever the file does not provide them.
pub open spec fn spec_parse_doc(
    content: Seq<char>,
    file_path: Seq<char>,
    folder: Seq<char>,
    now: Seq<char>,
) -> PromptSpec {
    let id = match spec_file_stem(file_path) {
        Some(st) => st,
        None => unknown_id(),
    };
    let fallback_title = match spec_file_stem(file_path) {
        Some(st) => st,
        None => untitled(),
    };
    let parts = spec_splitn3(content, delim());
    if parts.len() < 3 {
        PromptSpec {
            id: id,
            title: fallback_title,
            content: spec_trim(content),
            tags: Seq::empty(),
            description: None,
            use_count: 0,
            last_used: None,
            created_at: now,
            updated_at: now,
            file_path: file_path,
            folder: folder,
        }
    } else {
        let f = spec_parse_header(spec_trim(parts[1]), now);
        let body = spec_trim(parts[2]);
        PromptSpec {
            id: id,
            title: if spec_trim(f.title).len() == 0 {
                fallback_title
            } else {
                f.title
            },
            content: body,
            tags: f.tags,
            description: f.description,
            use_count: f.use_count,
            last_used: f.last_used,
            created_at: f.created_at,
            updated_at: f.updated_at,
            file_path: file_path,
            folder: folder,
        }
    }
}

/// The document read from a raw file, with the decode time passed in.
pub fn parse_markdown_prompt_at(content: &str, file_path: &str, folder: &str, now: &str) -> (r:
    PromptItem)
    ensures
        r@ == spec_parse_doc(content@, file_path@, folder@, now@),
{
    let cv = chars_of(content);
    let pv = chars_of(file_path);
    let d = delim_vec();

    let (id, fallback_title) = match file_stem_vec(&pv) {
        Some(stem) => {
            let id = string_of(&stem);
            let t = string_of(&stem);
            (id, t)
        },
        None => {
            let mut u: Vec<char> = Vec::new();
            u.push('u');
            u.push('n');
            u.push('k');
            u.push('n');
            u.push('o');
            u.push('w');
            u.push('n');
            proof {
                assert(u@ =~= unknown_id());
            }
            let mut t: Vec<char> = Vec::new();
            t.push('未');
            t.push('命');
            t.push('名');
            proof {
                assert(t@ =~= untitled());
            }
            (string_of(&u), string_of(&t))
        },
    };

    let first = find_sub(&cv, &d);
    match first {
        None => fallback_prompt(&cv, id, fallback_title, file_path, folder, now),
        Some(i) => {
            proof {
                lemma_find_sub(cv@, d@);
                assert(d@.len() == 3);
            }
            let cn = cv.len();
            let rest = subvec(&cv, i + 3, cn);
            proof {
                assert(rest@ =~= cv@.skip(i as int + 3));
            }
            let second = find_sub(&rest, &d);
            match second {
                None => fallback_prompt(&cv, id, fallback_title, file_path, folder, now),
                Some(j) => {
                    proof {
                        lemma_find_sub(rest@, d@);
                    }
                    let header_raw = subvec(&rest, 0, j);
                    let header = trim_vec(&header_raw);
                    proof {
                        assert(header_raw@ =~= rest@.take(j as int));
                    }
                    let f = parse_frontmatter(&header, now);
                    let body_raw = subvec(&rest, j + 3, rest.len());
                    let body = trim_vec(&body_raw);
                    proof {
                        assert(body_raw@ =~= rest@.skip(j as int + 3));
                    }
                    let tc = chars_of(f.title.as_str());
                    let tt = trim_vec(&tc);
                    let title = if tt.len() == 0 {
                        fallback_title
                    } else {
                        f.title
                    };
                    let r = PromptItem {
                        id: id,
                        title: title,
                        content: string_of(&body),
                        tags: f.tags,
                        description: f.description,
                        use_count: f.use_count,
                        last_used: f.last_used,
                        created_at: f.created_at,
                        updated_at: f.updated_at,
                        file_path: String::from_str(file_path),
                        folder: String::from_str(folder),
                    };
                    proof {
                        assert(r@ =~~= spec_parse_doc(content@, file_path@, folder@, now@));
                    }
                    r
                },
            }
        },
    }
}

fn fallback_prompt(
    cv: &Vec<char>,
    id: String,
    fallback_title: String,
    file_path: &str,
    folder: &str,
    now: &str,
) -> (r: PromptItem)
    requires
        spec_splitn3(cv@, delim()).len() < 3,
        id@ == (match spec_file_stem(file_path@) {
            Some(st) => st,
            None => unknown_id(),
        }),
        fallback_title@ == (match spec_file_stem(file_path@) {
            Some(st) => st,
            None => untitled(),
        }),
    ensures
        r@ == spec_parse_doc(cv@, file_path@, folder@, now@),
{
    let body = trim_vec(cv);
    let no_tags: Vec<String> = Vec::new();
    proof {
        assert(no_tags.deep_view() =~= Seq::<Seq<char>>::empty());
    }
    let r = PromptItem {
        id: id,
        title: fallback_title,
        content: string_of(&body),
        tags: no_tags,
        description: None,
        use_count: 0,
        last_used: None,
        created_at: String::from_str(now),
        updated_at: String::from_str(now),
        file_path: String::from_str(file_path),
        folder: String::from_str(folder),
    };
    proof {
        assert(r@ =~~= spec_parse_doc(cv@, file_path@, folder@, now@));
    }
    r
}

/// Equal everywhere the decode time cannot reach: on everything but the two
/// timestamps of a document.
pub open spec fn doc_agrees_outside_times(a: PromptSpec, b: PromptSpec) -> bool {
    &&& a.id == b.id
    &&& a.title == b.title
    &&& a.content == b.content
    &&& a.tags == b.tags
    &&& a.description == b.description
    &&& a.use_count == b.use_count
    &&& a.last_used == b.last_used
    &&& a.file_path == b.file_path
    &&& a.folder == b.folder
}

/// The decode time reaches only the defaults of the two timestamps: every
/// other field of a decoded document is the same whatever the time was.
pub proof fn lemma_parse_doc_now_agnostic(
    content: Seq<char>,
    file_path: Seq<char>,
    folder: Seq<char>,
    n1: Seq<char>,
    n2: Seq<char>,
)
    ensures
        doc_agrees_outside_times(
            spec_parse_doc(content, file_path, folder, n1),
            spec_parse_doc(content, file_path, folder, n2),
        ),
{
    let parts = spec_splitn3(content, delim());
    if parts.len() >= 3 {
        crate::header::lemma_parse_header_now_agnostic(spec_trim(parts[1]), n1, n2);
    }
}

/// The document read from a raw file, never an error. The decode time is the
/// moment of the call in the fixed calendar form `YYYY-MM-DDTHH:MM:SSZ` —
/// the one form the data model allows a timestamp field — and only the two
/// timestamps can depend on it.
pub fn parse_markdown_prompt(content: &str, file_path: &str, folder: &str) -> (r: Result<
    PromptItem,
    AppError,
>)
    ensures
        r is Ok,
        r matches Ok(p) ==> exists|s: u64|
            p@ == spec_parse_doc(content@, file_path@, folder@, spec_format_ts(s as nat)),
        r matches Ok(p) ==> doc_agrees_outside_times(
            p@,
            spec_parse_doc(content@, file_path@, folder@, Seq::empty()),
        ),
{
    let now = generate_timestamp();
    let p = parse_markdown_prompt_at(content, file_path, folder, now.as_str());
    proof {
        let s = choose|s: u64| now@ == spec_format_ts(s as nat);
        assert(p@ == spec_parse_doc(content@, file_path@, folder@, spec_format_ts(s as nat)));
        lemma_parse_doc_now_agnostic(content@, file_path@, folder@, now@, Seq::empty());
    }
    Ok(p)
}

/// The metadata of a document, without its location fields.
pub open spec fn front_of_prompt(p: PromptSpec) -> FrontSpec {
    FrontSpec {
        title: p.title,
        tags: p.tags,
        description: p.description,
        use_count: p.use_count,
        last_used: p.last_used,
        created_at: p.created_at,
        updated_at: p.updated_at,
    }
}

/// The raw file written for a document: delimiter line, header block,
/// delimiter line, one blank line, body — exactly once, with no escaping of
/// the body.
pub open spec fn spec_serialize_doc(f: FrontSpec, content: Seq<char>) -> Seq<char> {
    delim() + seq!['\n'] + spec_serialize_header(f) + seq!['\n'] + delim() + seq!['\n', '\n']
        + content
}

pub(crate) fn clone_tags(tags: &Vec<String>) -> (r: Vec<String>)
    ensures
        r.deep_view() == tags.deep_view(),
{
    let mut r: Vec<String> = Vec::new();
    let mut i: usize = 0;
    while i < tags.len()
        invariant
            i <= tags@.len(),
            r@ == tags@.take(i as int),
        decreases tags@.len() - i,
    {
        r.push(tags[i].clone());
        proof {
            assert(r@ =~= tags@.take(i as int + 1));
        }
        i = i + 1;
    }
    proof {
        assert(r@ =~= tags@);
        assert(r.deep_view() =~= tags.deep_view());
    }
    r
}

/// The raw file content of a document.
pub fn serialize_markdown_prompt(item: &PromptItem) -> (r: String)
    ensures
        r@ == spec_serialize_doc(front_of_prompt(item@), item@.content),
{
    let frontmatter = PromptFrontmatter {
        title: item.title.clone(),
        tags: clone_tags(&item.tags),
        description: match &item.description {
            Some(d) => Some(d.clone()),
            None => None,
        },
        use_count: item.use_count,
        last_used: match &item.last_used {
            Some(l) => Some(l.clone()),
            None => None,
        },
        created_at: item.created_at.clone(),
        updated_at: item.updated_at.clone(),
    };
    proof {
        assert(frontmatter@ =~~= front_of_prompt(item@));
    }
    let yaml = serde_yaml_serialize(&frontmatter);
    let mut out: Vec<char> = Vec::new();
    out.push('-');
    out.push('-');
    out.push('-');
    out.push('\n');
    extend_str(&mut out, yaml.as_str());
    out.push('\n');
    out.push('-');
    out.push('-');
    out.push('-');
    out.push('\n');
    out.push('\n');
    extend_str(&mut out, item.content.as_str());
    let r = string_of(&out);
    proof {
        assert(r@ =~= spec_serialize_doc(front_of_prompt(item@), item@.content));
    }
    r
}

} // verus!
