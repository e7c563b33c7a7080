//! Slash-separated paths held as text.
use crate::text;
use vstd::prelude::*;

verus! {

pub open spec fn is_absolute_path(path: Seq<char>) -> bool {
    path.len() > 0 && path[0] == '/'
}

/// `part` below `base`: an absolute `part` replaces `base`; otherwise the two
/// are put side by side with exactly one slash where they meet, and nothing is
/// put before `part` where `base` is empty.
pub open spec fn joined_path(base: Seq<char>, part: Seq<char>) -> Seq<char> {
    if is_absolute_path(part) {
        part
    } else if base.len() == 0 || base.last() == '/' {
        base + part
    } else {
        base.push('/') + part
    }
}

pub fn is_absolute(path: &str) -> (r: bool)
    ensures
        r == is_absolute_path(path@),
{
    let v = text::to_chars(path);
    v.len() > 0 && v[0] == '/'
}

pub fn join(base: &str, part: &str) -> (r: String)
    ensures
        r@ == joined_path(base@, part@),
{
    if is_absolute(part) {
        return part.to_owned();
    }
    let v = text::to_chars(base);
    let mut r: String = base.to_owned();
    if v.len() > 0 && v[v.len() - 1] != '/' {
        r.push('/');
    }
    r.append(part);
    r
}

/// A non-empty base and a relative part that is not empty and holds no slash:
/// the base, one slash, the part.
pub proof fn lemma_join_part(base: Seq<char>, part: Seq<char>)
    requires
        base.len() > 0,
        base.last() != '/',
        !part.contains('/'),
    ensures
        joined_path(base, part) == base.push('/') + part,
{
    if part.len() > 0 {
        assert(part.contains(part[0]));
    }
}

/// A path below a directory: one slash stands between the two, whether or not the
/// directory's ends in one; an absolute path stays as it is.
pub proof fn law_paths_meet_at_one_slash(base: Seq<char>, part: Seq<char>)
    ensures
        part.len() > 0 && part[0] == '/' ==> joined_path(base, part) == part,
        (part.len() == 0 || part[0] != '/') && base.len() > 0 && base.last() != '/'
            ==> joined_path(base, part) == base + seq!['/'] + part,
        (part.len() == 0 || part[0] != '/') && base.len() > 0 && base.last() == '/'
            ==> joined_path(base, part) == base + part,
        (part.len() == 0 || part[0] != '/') && base.len() == 0 ==> joined_path(base, part) == part,
{
    assert(base.push('/') + part =~= base + seq!['/'] + part);
    if base.len() == 0 {
        assert(base + part =~= part);
    }
}

} // verus!
