//! File paths as text.
use vstd::prelude::*;
use vstd::string::*;
use crate::search::{begins, ends, ends_with, starts_with, strip_prefix};
use crate::text::{cat2, cat3, copy};

verus! {

/// `dirs::home_dir`: the user's home directory, if there is one. It depends on the
/// environment, so nothing is said of it. A path that is not valid UTF-8 is given
/// with replacement characters.
#[verifier::external_body]
pub(crate) fn home_dir() -> Option<String> {
    dirs::home_dir().map(|p| p.to_string_lossy().into_owned())
}

/// A path below another one: an absolute path replaces the base.
pub open spec fn joined(base: Seq<char>, rest: Seq<char>) -> Seq<char> {
    if starts_with(rest, "/"@) || base.len() == 0 {
        rest
    } else if ends_with(base, "/"@) {
        base + rest
    } else {
        base + "/"@ + rest
    }
}

/// A path below another one.
pub fn join_path(base: &str, rest: &str) -> (r: String)
    ensures
        r@ == joined(base@, rest@),
{
    if begins(rest, "/") || base.is_empty() {
        copy(rest)
    } else if ends(base, "/") {
        cat2(base, rest)
    } else {
        cat3(base, "/", rest)
    }
}

/// A path whose leading `~/` stands for the home directory, where there is one.
pub open spec fn untilded(path: Seq<char>, home: Option<Seq<char>>) -> Seq<char> {
    if starts_with(path, "~/"@) && home is Some {
        joined(home->0, path.skip("~/"@.len() as int))
    } else {
        path
    }
}

/// The text of an optional string slice.
pub open spec fn opt_str(o: Option<&str>) -> Option<Seq<char>> {
    match o {
        Some(s) => Some(s@),
        None => None,
    }
}

/// Replaces a leading `~/` by the home directory.
pub fn expand_tilde(path: &str, home: Option<&str>) -> (r: String)
    ensures
        r@ == untilded(path@, opt_str(home)),
{
    if let Some(rest) = strip_prefix(path, "~/") {
        if let Some(h) = home {
            return join_path(h, rest.as_str());
        }
    }
    copy(path)
}

} // verus!
