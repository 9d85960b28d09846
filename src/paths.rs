//! File-system path arithmetic on plain strings, through `std::path`.
use vstd::prelude::*;

verus! {

/// The path `base` joined with `tail`, as `std::path::Path::join` forms it on Unix: an
/// absolute `tail` replaces `base`; otherwise a `/` separates them unless `base` is empty or
/// already ends in one.
pub open spec fn joined(base: Seq<char>, tail: Seq<char>) -> Seq<char> {
    if tail.len() > 0 && tail[0] == '/' {
        tail
    } else if base.len() > 0 && base.last() != '/' {
        base + seq!['/'] + tail
    } else {
        base + tail
    }
}

/// The last component of a path, as `std::path::Path::file_name` finds it.
pub uninterp spec fn file_name_of(path: Seq<char>) -> Option<Seq<char>>;

/// The path without its last component, as `std::path::Path::parent` finds it.
pub uninterp spec fn parent_of(path: Seq<char>) -> Option<Seq<char>>;

/// Joins `tail` onto `base` as `std::path::Path::join` does on Unix.
pub fn path_join(base: &str, tail: &str) -> (r: String)
    ensures
        r@ == joined(base@, tail@),
{
    let tn = tail.unicode_len();
    let bn = base.unicode_len();
    if tn > 0 && tail.get_char(0) == '/' {
        String::from_str(tail)
    } else if bn > 0 && base.get_char(bn - 1) != '/' {
        let mut r = String::from_str(base);
        r.append("/");
        proof {
            reveal_strlit("/");
            assert("/"@ =~= seq!['/']);
        }
        r.append(tail);
        r
    } else {
        let mut r = String::from_str(base);
        r.append(tail);
        r
    }
}

/// Relies on `std::path::Path::file_name`: the last component depends on the path alone.
#[verifier::external_body]
pub fn path_file_name(path: &str) -> (r: Option<String>)
    ensures
        match r {
            Some(s) => file_name_of(path@) == Some(s@),
            None => file_name_of(path@) is None,
        },
{
    match std::path::Path::new(path).file_name() {
        Some(n) => Some(n.to_string_lossy().into_owned()),
        None => None,
    }
}

/// Relies on `std::path::Path::parent`: the parent depends on the path alone.
#[verifier::external_body]
pub fn path_parent(path: &str) -> (r: Option<String>)
    ensures
        match r {
            Some(s) => parent_of(path@) == Some(s@),
            None => parent_of(path@) is None,
        },
{
    match std::path::Path::new(path).parent() {
        Some(p) => Some(p.to_string_lossy().into_owned()),
        None => None,
    }
}

} // verus!
