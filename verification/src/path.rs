//! Paths as strings, with the Unix semantics of `std::path`.

use vstd::prelude::*;

use crate::text::cat3;

verus! {

/// `Path::join` on Unix: an absolute `part` replaces `base`; otherwise a
/// separator goes between them unless `base` is empty or already ends in one.
pub open spec fn path_join(base: Seq<char>, part: Seq<char>) -> Seq<char> {
    if part.len() > 0 && part[0] == '/' {
        part
    } else if base.len() > 0 && base.last() != '/' {
        base + seq!['/'] + part
    } else {
        base + part
    }
}

/// `base.join(part)`.
pub fn join(base: &str, part: &str) -> (res: String)
    ensures
        res@ == path_join(base@, part@),
{
    let b = base.unicode_len();
    let p = part.unicode_len();
    if p > 0 && part.get_char(0) == '/' {
        String::from_str(part)
    } else if b > 0 && base.get_char(b - 1) != '/' {
        let r = cat3(base, "/", part);
        proof {
            reveal_strlit("/");
            assert("/"@ =~= seq!['/']);
        }
        r
    } else {
        let mut r = String::from_str(base);
        r.append(part);
        r
    }
}

/// What `Path::strip_prefix` returns, rendered back to text: the part of
/// `path` after the leading components that make up `base`, or `None` when
/// `base` is not a component-wise prefix of `path`.
pub uninterp spec fn path_strip_prefix(path: Seq<char>, base: Seq<char>) -> Option<Seq<char>>;

/// Calls `Path::strip_prefix`; the result is named `path_strip_prefix` of the
/// two arguments, with no more said of it.
#[verifier::external_body]
pub(crate) fn strip_prefix(path: &str, base: &str) -> (res: Option<String>)
    ensures
        match res {
            Some(r) => path_strip_prefix(path@, base@) == Some(r@),
            None => path_strip_prefix(path@, base@) is None,
        },
{
    match std::path::Path::new(path).strip_prefix(base) {
        Ok(rest) => Some(rest.to_string_lossy().into_owned()),
        Err(_) => None,
    }
}

} // verus!
