use vstd::prelude::*;

use crate::text::{append_chars, has_suffix, pieces, string_from_chars, to_chars};

verus! {

/// `PathBuf::push` on Unix: an absolute `name` replaces `base`; otherwise a
/// separator is added between them when `base` is non-empty and does not end
/// in one.
pub open spec fn join_text(base: Seq<char>, name: Seq<char>) -> Seq<char> {
    if name.len() > 0 && name[0] == '/' {
        name
    } else if base.len() > 0 && base.last() != '/' {
        base + seq!['/'] + name
    } else {
        base + name
    }
}

/// `Path::join` on Unix paths held as text.
pub fn path_join(base: &str, name: &str) -> (r: String)
    ensures
        r@ == join_text(base@, name@),
{
    let b = to_chars(base);
    let n = to_chars(name);
    let mut out: Vec<char> = Vec::new();
    if n.len() > 0 && n[0] == '/' {
        append_chars(&mut out, n.as_slice());
    } else {
        append_chars(&mut out, b.as_slice());
        if b.len() > 0 && b[b.len() - 1] != '/' {
            out.push('/');
        }
        append_chars(&mut out, n.as_slice());
    }
    proof {
        if !(n@.len() > 0 && n@[0] == '/') && b@.len() > 0 && b@.last() != '/' {
            assert(out@ == b@ + seq!['/'] + n@);
        }
    }
    string_from_chars(out.as_slice())
}

/// The owned view of an optional string.
pub open spec fn opt_view(o: Option<String>) -> Option<Seq<char>> {
    match o {
        Some(s) => Some(s@),
        None => None,
    }
}

/// The last piece of a `/`-separated path that names something, skipping
/// the empty pieces of repeated or trailing separators and `.` pieces.
pub open spec fn last_component(segs: Seq<Seq<char>>) -> Option<Seq<char>>
    decreases segs.len(),
{
    if segs.len() == 0 {
        None
    } else if segs.last().len() == 0 || segs.last() == "."@ {
        last_component(segs.drop_last())
    } else {
        Some(segs.last())
    }
}

/// `Path::file_name` on Unix: the last component, unless the path ends in
/// `..` or has none (the root, `.`, the empty path).
pub open spec fn file_name_of(p: Seq<char>) -> Option<Seq<char>> {
    match last_component(pieces(p, '/')) {
        Some(c) => if c == ".."@ {
            None
        } else {
            Some(c)
        },
        None => None,
    }
}

/// The position of the last `c` in `s`.
pub open spec fn last_index(s: Seq<char>, c: char) -> Option<int>
    decreases s.len(),
{
    if s.len() == 0 {
        None
    } else if s.last() == c {
        Some(s.len() - 1)
    } else {
        last_index(s.drop_last(), c)
    }
}

/// `Path::extension`: the part of the file name after its last `.`; none
/// without a file name, without a `.`, or when the only `.` leads the name.
pub open spec fn path_extension_of(p: Seq<char>) -> Option<Seq<char>> {
    match file_name_of(p) {
        None => None,
        Some(n) => match last_index(n, '.') {
            None => None,
            Some(i) => if i == 0 {
                None
            } else {
                Some(n.skip(i + 1))
            },
        },
    }
}

/// `Path::file_stem` of a file name: the name without its extension.
pub open spec fn file_stem_of(n: Seq<char>) -> Seq<char> {
    match last_index(n, '.') {
        Some(i) => if i > 0 {
            n.take(i)
        } else {
            n
        },
        None => n,
    }
}

/// What `PathBuf::set_extension(ext)` does to the path `p`: whether the path
/// has a file name (the call's result), and the path afterwards.
pub uninterp spec fn path_set_extension_of(p: Seq<char>, ext: Seq<char>) -> (bool, Seq<char>);

/// Calls std's `Path::extension` on `p`; the contract states its documented
/// rule (the text after the last `.` of the file name, except a leading one).
#[verifier::external_body]
pub(crate) fn path_extension(p: &str) -> (r: Option<String>)
    ensures
        opt_view(r) == path_extension_of(p@),
{
    std::path::Path::new(p).extension().and_then(|e| e.to_str()).map(|e| e.to_owned())
}

/// Calls std's `PathBuf::set_extension` on `p`, which panics on an extension
/// that holds a path separator; `requires` leaves those out. Its documentation says that
/// without a file name it does nothing and returns `false`, and that otherwise
/// it returns `true` and `extension()` is afterwards `ext` (for an `ext` that
/// is non-empty and has no `.`), the extension being added or replaced; the
/// contract says that, and that where the file name ends the path the new
/// path is the path up to the file's stem, a `.` and `ext`. It names the rest.
#[verifier::external_body]
pub(crate) fn path_set_extension(p: &str, ext: &str) -> (r: (bool, String))
    requires
        !ext@.contains('/'),
    ensures
        (r.0, r.1@) == path_set_extension_of(p@, ext@),
        r.0 == (file_name_of(p@) is Some),
        !r.0 ==> r.1@ == p@,
        r.0 && ext@.len() > 0 && !ext@.contains('.') ==> path_extension_of(r.1@) == Some(ext@),
        r.0 && ext@.len() > 0 && has_suffix(p@, file_name_of(p@)->0) ==> r.1@ == p@.take(
            p@.len() - file_name_of(p@)->0.len(),
        ) + file_stem_of(file_name_of(p@)->0) + "."@ + ext@,
{
    let mut b = std::path::PathBuf::from(p);
    let changed = b.set_extension(ext);
    (changed, b.to_string_lossy().into_owned())
}

} // verus!
