//! Host paths as text. Components are separated by `/`, and a path is absolute
//! when it begins with one.

use vstd::prelude::*;
use vstd::string::StringExecFns;

verus! {

/// A path is absolute when its first character is the separator.
pub open spec fn is_absolute(p: Seq<char>) -> bool {
    p.len() > 0 && p[0] == '/'
}

/// `p` seen from the directory `base`: an absolute `p` stands for itself, a
/// relative one is appended to `base`, with a separator between the two unless
/// `base` is empty or already ends in one.
pub open spec fn joined(base: Seq<char>, p: Seq<char>) -> Seq<char> {
    if is_absolute(p) {
        p
    } else if base.len() == 0 || base.last() == '/' {
        base + p
    } else {
        base + seq!['/'] + p
    }
}

/// Whether `p` is an absolute path.
pub fn absolute(p: &str) -> (r: bool)
    ensures
        r == is_absolute(p@),
{
    !p.is_empty() && p.get_char(0) == '/'
}

/// Resolves `p` against the directory `base`.
pub fn join(base: &str, p: &str) -> (r: String)
    ensures
        r@ == joined(base@, p@),
{
    if absolute(p) {
        return String::from_str(p);
    }
    let n = base.unicode_len();
    let mut r = String::from_str(base);
    if n > 0 && base.get_char(n - 1) != '/' {
        proof {
            reveal_strlit("/");
        }
        r.append("/");
    }
    r.append(p);
    r
}

/// Joining onto an absolute directory always gives an absolute path.
pub proof fn joined_is_absolute(base: Seq<char>, p: Seq<char>)
    requires
        is_absolute(base),
    ensures
        is_absolute(joined(base, p)),
{
}

/// An absolute path is not moved by the directory it is resolved against.
pub proof fn joined_keeps_absolute(base: Seq<char>, p: Seq<char>)
    requires
        is_absolute(p),
    ensures
        joined(base, p) == p,
{
}

} // verus!
