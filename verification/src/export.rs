//! The archive exporter's computations: the archive's name and the name of
//! each entry. The caller walks the storage root and writes the archive; the
//! names it uses are specified here.
use vstd::prelude::*;
use crate::text::{chars_of, string_of, extend_str, extend_chars, subvec, vec_eq, matches_at};

verus! {

/// A timestamp character as it may appear in a file name: colons become
/// dashes and spaces become underscores.
pub open spec fn spec_archive_char(c: char) -> char {
    if c == ':' {
        '-'
    } else if c == ' ' {
        '_'
    } else {
        c
    }
}

/// The archive file's name for an export at the given timestamp.
pub open spec fn spec_archive_name(ts: Seq<char>) -> Seq<char> {
    "PromptFlow-Export-"@ + ts.map_values(|c: char| spec_archive_char(c)) + ".zip"@
}

/// The name of the archive written for an export at the given timestamp.
pub fn export_archive_name(timestamp: &str) -> (r: String)
    ensures
        r@ == spec_archive_name(timestamp@),
{
    let tv = chars_of(timestamp);
    let n = tv.len();
    let mut out: Vec<char> = Vec::new();
    extend_str(&mut out, "PromptFlow-Export-");
    let mut i: usize = 0;
    while i < n
        invariant
            i <= n,
            n == tv@.len(),
            tv@ == timestamp@,
            out@.len() == "PromptFlow-Export-"@.len() + i,
            out@.take("PromptFlow-Export-"@.len() as int) == "PromptFlow-Export-"@,
            forall|m: int|
                0 <= m < i ==> out@["PromptFlow-Export-"@.len() + m] == spec_archive_char(tv@[m]),
        decreases n - i,
    {
        let c = tv[i];
        let mc = if c == ':' {
            '-'
        } else if c == ' ' {
            '_'
        } else {
            c
        };
        out.push(mc);
        proof {
            assert(out@.take("PromptFlow-Export-"@.len() as int) =~= "PromptFlow-Export-"@);
        }
        i = i + 1;
    }
    extend_str(&mut out, ".zip");
    proof {
        assert(out@ =~= spec_archive_name(timestamp@));
    }
    string_of(&out)
}

/// The entry name of one walked path: nothing for the root itself; otherwise
/// the path relative to the root, with a trailing separator for a directory.
pub open spec fn spec_archive_entry(root: Seq<char>, full: Seq<char>, is_dir: bool) -> Option<
    Seq<char>,
> {
    if full == root && is_dir {
        None
    } else {
        let rel = if full.len() > root.len() && full.take(root.len() as int) == root && full[
            root.len() as int
        ] == '/' {
            full.skip(root.len() as int + 1)
        } else {
            full
        };
        if is_dir {
            Some(rel + seq!['/'])
        } else {
            Some(rel)
        }
    }
}

/// The name one walked path gets inside the archive.
pub fn archive_entry_name(root: &str, full_path: &str, is_dir: bool) -> (r: Option<String>)
    ensures
        (r is Some <==> spec_archive_entry(root@, full_path@, is_dir) is Some),
        r matches Some(s) ==> Some(s@) == spec_archive_entry(root@, full_path@, is_dir),
{
    let rv = chars_of(root);
    let fv = chars_of(full_path);
    if is_dir && vec_eq(&fv, &rv) {
        return None;
    }
    let n = fv.len();
    let rn = rv.len();
    let rel: Vec<char> = if n > rn && matches_at(&fv, &rv, 0) && fv[rn] == '/' {
        proof {
            assert(fv@.subrange(0, rn as int) =~= fv@.take(rn as int));
        }
        subvec(&fv, rn + 1, n)
    } else {
        proof {
            if n > rn && fv@.take(rn as int) == rv@ && fv@[rn as int] == '/' {
                assert(fv@.subrange(0, rn as int) =~= fv@.take(rn as int));
            }
        }
        subvec(&fv, 0, n)
    };
    proof {
        assert(fv@.subrange(0, n as int) =~= fv@);
    }
    if is_dir {
        let mut out = rel;
        out.push('/');
        Some(string_of(&out))
    } else {
        Some(string_of(&rel))
    }
}

} // verus!
