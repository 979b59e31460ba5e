//! Storage-root resolution: the user override (absolute path, `~`-expansion,
//! or empty for the default), its validation, and the paths derived from the
//! resolved root.
use vstd::prelude::*;
use crate::error::AppError;
use crate::text::{
    spec_trim, spec_strip_trail, trim_vec, chars_of, string_of, subvec, extend_str, extend_chars,
    vec_eq, str_eq,
};

verus! {

/// Relies on `dirs::home_dir`: the user's home directory as reported by the
/// platform, if any. Nothing can be promised of the environment.
#[verifier::external_body]
fn dirs_home_dir() -> Option<String> {
    dirs::home_dir().map(|p| p.to_string_lossy().into_owned())
}

/// A leading `"~/"` replaced by the home directory when one is known; any
/// other input is unchanged.
pub open spec fn spec_expand_tilde(p: Seq<char>, home: Option<Seq<char>>) -> Seq<char> {
    if p.len() >= 2 && p[0] == '~' && p[1] == '/' && home is Some {
        home.unwrap() + p.skip(1)
    } else {
        p
    }
}

/// `path` with a leading `"~/"` replaced by the given home directory.
pub fn expand_tilde_with(path: &str, home: Option<&str>) -> (r: String)
    ensures
        r@ == spec_expand_tilde(
            path@,
            match home {
                Some(h) => Some(h@),
                None => None,
            },
        ),
{
    let pv = chars_of(path);
    if pv.len() >= 2 && pv[0] == '~' && pv[1] == '/' {
        match home {
            Some(h) => {
                let mut out: Vec<char> = Vec::new();
                extend_str(&mut out, h);
                let tail = subvec(&pv, 1, pv.len());
                extend_chars(&mut out, &tail);
                proof {
                    assert(out@ =~= h@ + path@.skip(1));
                }
                string_of(&out)
            },
            None => String::from_str(path),
        }
    } else {
        String::from_str(path)
    }
}

/// `path` with a leading `"~/"` replaced by the home directory the platform
/// reports at the moment of the call.
pub fn expand_tilde(path: &str) -> (r: String)
    ensures
        exists|h: Option<Seq<char>>| r@ == spec_expand_tilde(path@, h),
{
    let home = dirs_home_dir();
    let r = match &home {
        Some(h) => expand_tilde_with(path, Some(h.as_str())),
        None => expand_tilde_with(path, None),
    };
    proof {
        match home {
            Some(h) => {
                assert(r@ == spec_expand_tilde(path@, Some(h@)));
            },
            None => {
                assert(r@ == spec_expand_tilde(path@, None::<Seq<char>>));
            },
        }
    }
    r
}

/// Trailing separators stripped, except from the root path itself.
pub open spec fn spec_strip_trail_slash(p: Seq<char>) -> Seq<char>
    decreases p.len(),
{
    if p.len() > 1 && p.last() == '/' {
        spec_strip_trail_slash(p.drop_last())
    } else {
        p
    }
}

/// The candidate storage root for an override string: `None` means the
/// override is rejected as invalid.
///
/// An empty or all-space override falls back to the default root. A bare
/// `"~"` resolves to the home directory when one is known. After expansion
/// the path must be absolute, or it is rejected rather than resolved against
/// the working directory. Trailing separators are stripped.
pub open spec fn spec_resolve_candidate(
    o: Seq<char>,
    home: Option<Seq<char>>,
    dflt: Seq<char>,
) -> Option<Seq<char>> {
    let t = spec_trim(o);
    if t.len() == 0 {
        Some(dflt)
    } else {
        let p = if t == seq!['~'] {
            match home {
                Some(h) => h,
                None => seq!['~'],
            }
        } else {
            spec_expand_tilde(t, home)
        };
        if p.len() == 0 {
            Some(dflt)
        } else if p[0] != '/' {
            None
        } else {
            Some(spec_strip_trail_slash(p))
        }
    }
}

proof fn lemma_strip_trail_slash_take(s: Seq<char>, k: int)
    requires
        1 <= k <= s.len(),
        forall|m: int| k <= m < s.len() ==> s[m] == '/',
    ensures
        spec_strip_trail_slash(s) == spec_strip_trail_slash(s.take(k)),
    decreases s.len() - k,
{
    if k == s.len() {
        assert(s.take(k) =~= s);
    } else {
        lemma_strip_trail_slash_take(s.drop_last(), k);
        assert(s.drop_last().take(k) =~= s.take(k));
    }
}

fn strip_trail_slash(v: &Vec<char>) -> (r: Vec<char>)
    ensures
        r@ == spec_strip_trail_slash(v@),
{
    let n = v.len();
    let mut j: usize = n;
    while j > 1 && v[j - 1] == '/'
        invariant
            j <= n,
            n == v@.len(),
            n > 0 ==> j >= 1,
            forall|m: int| j <= m < n ==> v@[m] == '/',
        decreases j,
    {
        j = j - 1;
    }
    let r = subvec(v, 0, j);
    proof {
        if n == 0 {
            assert(v@.subrange(0, 0) =~= v@);
        } else {
            lemma_strip_trail_slash_take(v@, j as int);
            assert(v@.take(j as int) =~= v@.subrange(0, j as int));
            if j > 1 {
                assert(v@.take(j as int).last() != '/' || v@.take(j as int).len() <= 1);
            }
        }
    }
    r
}

/// The storage root chosen for an override string, a home directory and a
/// default root, or a `VALIDATION_ERROR` when the override is neither empty
/// nor absolute after expansion.
pub fn resolve_storage_root(override_path: &str, home: Option<&str>, default_root: &str) -> (r:
    Result<String, AppError>)
    ensures
        ({
            let hv = match home {
                Some(h) => Some(h@),
                None => None::<Seq<char>>,
            };
            &&& (r is Ok <==> spec_resolve_candidate(override_path@, hv, default_root@) is Some)
            &&& (r matches Ok(p) ==> Some(p@) == spec_resolve_candidate(
                override_path@,
                hv,
                default_root@,
            ))
            &&& (r matches Err(e) ==> e.code@ == "VALIDATION_ERROR"@)
        }),
{
    let ov = chars_of(override_path);
    let t = trim_vec(&ov);
    if t.len() == 0 {
        return Ok(String::from_str(default_root));
    }
    let p: Vec<char> = if t.len() == 1 && t[0] == '~' {
        proof {
            assert(t@ =~= seq!['~']);
        }
        match home {
            Some(h) => chars_of(h),
            None => {
                let mut w: Vec<char> = Vec::new();
                w.push('~');
                proof {
                    assert(w@ =~= seq!['~']);
                }
                w
            },
        }
    } else {
        proof {
            if t@.len() == 1 {
                assert(t@[0] != '~' ==> t@ != seq!['~']);
            } else {
                assert(t@ != seq!['~']);
            }
        }
        let ts = string_of(&t);
        let expanded = expand_tilde_with(ts.as_str(), home);
        chars_of(expanded.as_str())
    };
    if p.len() == 0 {
        return Ok(String::from_str(default_root));
    }
    if p[0] != '/' {
        return Err(AppError::validation_error(
            "storage.path must be an absolute path or empty (to use the default data directory)",
        ));
    }
    let stripped = strip_trail_slash(&p);
    Ok(string_of(&stripped))
}

/// The storage root chosen for an override string and a default root, with
/// the home directory the platform reports at the moment of the call.
pub fn resolve_storage_root_auto(override_path: &str, default_root: &str) -> (r: Result<
    String,
    AppError,
>)
    ensures
        exists|hv: Option<Seq<char>>|
            {
                &&& (r is Ok <==> spec_resolve_candidate(override_path@, hv, default_root@)
                    is Some)
                &&& (r matches Ok(p) ==> Some(p@) == spec_resolve_candidate(
                    override_path@,
                    hv,
                    default_root@,
                ))
            },
        r matches Err(e) ==> e.code@ == "VALIDATION_ERROR"@,
{
    let home = dirs_home_dir();
    let r = match &home {
        Some(h) => resolve_storage_root(override_path, Some(h.as_str()), default_root),
        None => resolve_storage_root(override_path, None, default_root),
    };
    proof {
        match home {
            Some(h) => {
                let hv = Some(h@);
                assert((r is Ok <==> spec_resolve_candidate(override_path@, hv, default_root@)
                    is Some) && (r matches Ok(p) ==> Some(p@) == spec_resolve_candidate(
                    override_path@,
                    hv,
                    default_root@,
                )));
            },
            None => {
                let hv = None::<Seq<char>>;
                assert((r is Ok <==> spec_resolve_candidate(override_path@, hv, default_root@)
                    is Some) && (r matches Ok(p) ==> Some(p@) == spec_resolve_candidate(
                    override_path@,
                    hv,
                    default_root@,
                )));
            },
        }
    }
    r
}

/// Accepts a resolved root unless it exists as something other than a
/// directory; the caller reports what the file system says of the path.
pub fn check_storage_root(present: bool, is_dir: bool) -> (r: Result<(), AppError>)
    ensures
        r is Ok <==> (!present || is_dir),
        r matches Err(e) ==> e.code@ == "VALIDATION_ERROR"@,
{
    if present && !is_dir {
        Err(AppError::validation_error("storage.path points to a file; it must be a directory"))
    } else {
        Ok(())
    }
}

/// The sub-directory of one collection: `<root>/<folder>`.
pub open spec fn spec_collection_path(root: Seq<char>, folder: Seq<char>) -> Seq<char> {
    root + seq!['/'] + folder
}

/// The path of one collection's directory.
pub fn collection_path(root: &str, folder: &str) -> (r: String)
    ensures
        r@ == spec_collection_path(root@, folder@),
{
    let mut out: Vec<char> = Vec::new();
    extend_str(&mut out, root);
    out.push('/');
    extend_str(&mut out, folder);
    proof {
        assert(out@ =~= spec_collection_path(root@, folder@));
    }
    string_of(&out)
}

/// The file a document lives in: `<root>/<folder>/<id>.md`.
pub open spec fn spec_prompt_file_path(root: Seq<char>, folder: Seq<char>, id: Seq<char>) -> Seq<
    char,
> {
    root + seq!['/'] + folder + seq!['/'] + id + seq!['.', 'm', 'd']
}

/// The path of one document's file.
pub fn prompt_file_path(root: &str, folder: &str, id: &str) -> (r: String)
    ensures
        r@ == spec_prompt_file_path(root@, folder@, id@),
{
    let mut out: Vec<char> = Vec::new();
    extend_str(&mut out, root);
    out.push('/');
    extend_str(&mut out, folder);
    out.push('/');
    extend_str(&mut out, id);
    out.push('.');
    out.push('m');
    out.push('d');
    proof {
        assert(out@ =~= spec_prompt_file_path(root@, folder@, id@));
    }
    string_of(&out)
}

/// The file a document lives in inside an already-resolved collection
/// directory: `<dir>/<id>.md`.
pub open spec fn spec_file_in_dir(dir: Seq<char>, id: Seq<char>) -> Seq<char> {
    dir + seq!['/'] + id + seq!['.', 'm', 'd']
}

/// The path of one document's file inside a collection directory.
pub fn file_in_dir(dir: &str, id: &str) -> (r: String)
    ensures
        r@ == spec_file_in_dir(dir@, id@),
{
    let mut out: Vec<char> = Vec::new();
    extend_str(&mut out, dir);
    out.push('/');
    extend_str(&mut out, id);
    out.push('.');
    out.push('m');
    out.push('d');
    proof {
        assert(out@ =~= spec_file_in_dir(dir@, id@));
    }
    string_of(&out)
}

} // verus!
