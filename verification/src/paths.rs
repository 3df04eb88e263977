//! Paths as strings, joined the way `PathBuf::join` joins them on Unix.

use vstd::prelude::*;

use crate::text::{chars_of, string_of};

verus! {

/// `base` joined with `p`: `p` itself when it is absolute; otherwise `p`
/// after `base`, with one `/` between them unless `base` is empty or already
/// ends in `/`.
pub open spec fn path_join_seq(base: Seq<char>, p: Seq<char>) -> Seq<char> {
    if p.len() > 0 && p[0] == '/' {
        p
    } else if base.len() == 0 || base.last() == '/' {
        base + p
    } else {
        base + seq!['/'] + p
    }
}

/// `base` joined with `p`, as `Path::join` does.
pub fn path_join(base: &str, p: &str) -> (r: String)
    ensures
        r@ == path_join_seq(base@, p@),
{
    let pc = chars_of(p);
    if pc.len() > 0 && pc[0] == '/' {
        return p.to_owned();
    }
    let bc = chars_of(base);
    let mut out = base.to_owned();
    if bc.len() > 0 && bc[bc.len() - 1] != '/' {
        out.append("/");
        proof {
            reveal_strlit("/");
        }
    }
    out.append(p);
    proof {
        if bc.len() > 0 {
            assert(bc@.last() == bc@[bc.len() - 1]);
        }
    }
    out
}

/// The text that `{:?}` writes for a path.
pub uninterp spec fn path_debug_text(p: Seq<char>) -> Seq<char>;

/// Writes the path `p` with `Debug` (`format!("{:?}", Path::new(p))`); the
/// contract names the text and says nothing more of it.
#[verifier::external_body]
pub(crate) fn path_debug(p: &str) -> (s: String)
    ensures
        s@ == path_debug_text(p@),
{
    format!("{:?}", std::path::Path::new(p))
}

/// The extension that `Path::extension` finds in a path.
pub uninterp spec fn path_extension_of(p: Seq<char>) -> Option<Seq<char>>;

/// The extension of a file name: the text after its last `.`, when the name
/// has a `.` other than a leading one.
pub open spec fn file_name_extension(name: Seq<char>) -> Option<Seq<char>> {
    if exists|i: int| 0 < i < name.len() && name[i] == '.' {
        let i = choose|i: int|
            0 < i < name.len() && name[i] == '.' && forall|j: int| i < j < name.len() ==> name[j] != '.';
        Some(name.subrange(i + 1, name.len() as int))
    } else {
        None
    }
}

/// `Path::extension` of `p`, as text. A path without `/` that is neither empty,
/// `.` nor `..` is its own file name, and its extension is then as documented:
/// the text after the last `.` unless the only `.` leads the name.
#[verifier::external_body]
pub(crate) fn path_extension(p: &str) -> (e: Option<String>)
    ensures
        e matches Some(x) ==> path_extension_of(p@) == Some(x@),
        e is None ==> path_extension_of(p@) is None,
        !p@.contains('/') && p@.len() > 0 && p@ != seq!['.'] && p@ != seq!['.', '.'] ==> (match e {
            Some(x) => Some(x@),
            None => None,
        }) == file_name_extension(p@),
{
    std::path::Path::new(p).extension().map(|x| x.to_string_lossy().into_owned())
}

} // verus!
