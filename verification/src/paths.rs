//! Joining relative path components the way `Path::join` does on Unix.
use vstd::prelude::*;

verus! {

/// `base` joined with `rel`: an absolute `rel` replaces `base`; otherwise a
/// `/` separates the two unless `base` is empty or already ends in one.
pub open spec fn joined(base: Seq<char>, rel: Seq<char>) -> Seq<char> {
    if rel.len() > 0 && rel[0] == '/' {
        rel
    } else if base.len() == 0 {
        rel
    } else if base.last() == '/' {
        base + rel
    } else {
        base + seq!['/'] + rel
    }
}

/// Joins two path components.
pub fn join_path(base: &str, rel: &str) -> (out: String)
    ensures
        out@ == joined(base@, rel@),
{
    let b = crate::text::to_chars(base);
    let r = crate::text::to_chars(rel);
    if r.len() > 0 && r[0] == '/' {
        return crate::text::owned(rel);
    }
    if b.len() == 0 {
        return crate::text::owned(rel);
    }
    let mut out = crate::text::owned(base);
    if b[b.len() - 1] != '/' {
        crate::text::push_char(&mut out, '/');
    }
    crate::text::append_str(&mut out, rel);
    proof {
        assert(b@.last() == b@[b.len() - 1]);
    }
    out
}

} // verus!
