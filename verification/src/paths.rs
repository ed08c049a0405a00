//! Paths as text: joining them and taking leading slashes off.

use vstd::prelude::*;
use vstd::string::*;

verus! {

/// `s` without the slashes that it begins with.
pub open spec fn trim_leading_slashes(s: Seq<char>) -> Seq<char>
    decreases s.len(),
{
    if s.len() > 0 && s[0] == '/' {
        trim_leading_slashes(s.drop_first())
    } else {
        s
    }
}

/// The path `rel` seen from the directory `base`: `rel` itself where it
/// begins with a slash; else `base` and `rel` with a slash between them,
/// unless `base` is empty or ends in one.
pub open spec fn join_path(base: Seq<char>, rel: Seq<char>) -> Seq<char> {
    if rel.len() > 0 && rel[0] == '/' {
        rel
    } else if base.len() == 0 || base.last() == '/' {
        base + rel
    } else {
        base + seq!['/'] + rel
    }
}

proof fn lemma_trim_skips(s: Seq<char>, k: int)
    requires
        0 <= k <= s.len(),
        forall|j: int| 0 <= j < k ==> s[j] == '/',
        k < s.len() ==> s[k] != '/',
    ensures
        trim_leading_slashes(s) == s.skip(k),
    decreases k,
{
    if k == 0 {
        assert(s.skip(0) =~= s);
    } else {
        let t = s.drop_first();
        assert forall|j: int| 0 <= j < k - 1 implies t[j] == '/' by {
            assert(t[j] == s[j + 1]);
        }
        lemma_trim_skips(t, k - 1);
        assert(t.skip(k - 1) =~= s.skip(k));
    }
}

/// Takes the leading slashes off a path.
pub fn without_leading_slashes(s: &str) -> (t: &str)
    ensures
        t@ == trim_leading_slashes(s@),
{
    let len = s.unicode_len();
    let mut k: usize = 0;
    while k < len && s.get_char(k) == '/'
        invariant
            k <= len,
            len == s@.len(),
            forall|j: int| 0 <= j < k ==> s@[j] == '/',
        decreases len - k,
    {
        k += 1;
    }
    proof {
        lemma_trim_skips(s@, k as int);
        assert(s@.subrange(k as int, len as int) =~= s@.skip(k as int));
    }
    s.substring_char(k, len)
}

/// Joins a path to a directory.
pub fn join(base: &str, rel: &str) -> (path: String)
    ensures
        path@ == join_path(base@, rel@),
{
    proof {
        reveal_strlit("/");
        assert("/"@ =~= seq!['/']);
    }
    let rel_len = rel.unicode_len();
    if rel_len > 0 && rel.get_char(0) == '/' {
        return String::from_str(rel);
    }
    let base_len = base.unicode_len();
    let mut path = String::from_str(base);
    if base_len > 0 && base.get_char(base_len - 1) != '/' {
        path.append("/");
    }
    path.append(rel);
    path
}

/// The last component of a path, as `std::path::Path::file_name` finds
/// it; none for a path that ends in `..` or names the root.
pub uninterp spec fn path_file_name(path: Seq<char>) -> Option<Seq<char>>;

/// The last component of a path, from `std::path::Path::file_name`. For a
/// path that is text the component is text too.
#[verifier::external_body]
pub(crate) fn file_name(path: &str) -> (name: Option<String>)
    ensures
        match name {
            Some(n) => path_file_name(path@) == Some(n@),
            None => path_file_name(path@) is None,
        },
{
    match std::path::Path::new(path).file_name() {
        Some(n) => Some(n.to_string_lossy().into_owned()),
        None => None,
    }
}

} // verus!
