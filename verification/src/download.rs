//! Where downloads are cached, and how a Device Support archive is unpacked.

use vstd::prelude::*;

use crate::path::{join, path_join};
use crate::process::{argv, Capture, ProcessSpec};
use crate::product::home_dir;
use crate::text::{opt_view, owned};

verus! {

/// The user's cache directory as `dirs::cache_dir` reports it, read from the
/// environment. No clause states which directory it is, or when there is none.
#[verifier::external_body]
fn user_cache_dir() -> (res: Option<String>) {
    match dirs::cache_dir() {
        Some(p) => Some(p.to_string_lossy().into_owned()),
        None => None,
    }
}

/// chipsmith's cache: `chipsmith` in the user's cache directory, or in
/// `~/.cache` when there is none; `None` when there is no home either.
pub open spec fn cache_dir_spec(cache: Option<Seq<char>>, home: Option<Seq<char>>) -> Option<Seq<char>> {
    match cache {
        Some(c) => Some(path_join(c, "chipsmith"@)),
        None => match home {
            Some(h) => Some(path_join(path_join(h, ".cache"@), "chipsmith"@)),
            None => None,
        },
    }
}

pub fn cache_dir_from(cache: Option<String>, home: Option<String>) -> (res: Option<String>)
    ensures
        opt_view(res) == cache_dir_spec(opt_view(cache), opt_view(home)),
{
    match cache {
        Some(c) => Some(join(c.as_str(), "chipsmith")),
        None => match home {
            Some(h) => {
                let d = join(h.as_str(), ".cache");
                Some(join(d.as_str(), "chipsmith"))
            },
            None => None,
        },
    }
}

/// chipsmith's download cache on this machine.
pub fn cache_dir() -> (res: Option<String>)
    ensures
        res matches Some(d) ==> exists|c: Option<Seq<char>>, h: Option<Seq<char>>|
            cache_dir_spec(c, h) == Some(d@),
{
    let cache = user_cache_dir();
    match cache {
        Some(c) => cache_dir_from(Some(c), None),
        None => cache_dir_from(None, home_dir()),
    }
}

/// Where a download lands in the cache, and where it is written while it is
/// still arriving.
pub fn download_paths(cache: &str, filename: &str) -> (res: (String, String))
    ensures
        res.0@ == path_join(cache@, filename@),
        res.1@ == path_join(cache@, filename@ + ".part"@),
{
    let dest = join(cache, filename);
    let mut part_name = String::from_str(filename);
    part_name.append(".part");
    let part = join(cache, part_name.as_str());
    (dest, part)
}

/// `unzip -q -o <archive> -d <dest>`, output collected.
pub fn unzip_spec(archive: &str, dest: &str) -> (res: ProcessSpec)
    ensures
        argv(res) == seq!["unzip"@, "-q"@, "-o"@, archive@, "-d"@, dest@],
        res.capture == Capture::Piped,
        res.env@.len() == 0,
        res.working_dir is None,
{
    let res = ProcessSpec::new(owned("unzip")).arg(owned("-q")).arg(owned("-o")).arg(owned(archive)).arg(
        owned("-d"),
    ).arg(owned(dest)).capture(Capture::Piped);
    assert(argv(res) =~= seq!["unzip"@, "-q"@, "-o"@, archive@, "-d"@, dest@]);
    res
}

/// How a failed unzip names itself.
pub fn unzip_command(archive: &str) -> (res: String)
    ensures
        res@ == "unzip "@ + archive@,
{
    let mut s = String::from_str("unzip ");
    s.append(archive);
    s
}

} // verus!
