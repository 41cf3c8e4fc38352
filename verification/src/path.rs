//! Resolving a path that is relative to the directory of another archive
//! member.

use vstd::prelude::*;
use vstd::string::StrSliceExecFns;
use vstd::string::StringExecFns;
use crate::epub::Epub;
use crate::text::chars_of;
use crate::text::last_index_of;
use crate::text::lemma_last_index_of;
use crate::text::rfind_char;

verus! {

/// `relative` seen from the directory of `base`: everything of `base` up to
/// its last `/`, that separator, and `relative`. A `base` without a
/// separator lies in the root of the archive, and `relative` stands as it is.
/// No `.` or `..` segment is interpreted.
pub open spec fn resolved_path(base: Seq<char>, relative: Seq<char>) -> Seq<char> {
    match last_index_of(base, '/') {
        Some(i) => base.take(i) + seq!['/'] + relative,
        None => relative,
    }
}

/// A base without a separator changes nothing; a base that ends in its
/// directory's separator is put in front as it is.
pub proof fn lemma_resolved_path_cases(base: Seq<char>, relative: Seq<char>)
    ensures
        !base.contains('/') ==> resolved_path(base, relative) == relative,
        base.len() > 0 && base.last() == '/' ==> resolved_path(base, relative) == base + relative,
        base.contains('/') ==> resolved_path(base, relative).len() > relative.len(),
{
    lemma_last_index_of(base, '/');
    if base.len() > 0 && base.last() == '/' {
        assert(base.take(base.len() - 1) + seq!['/'] =~= base);
        assert(base.take(base.len() - 1) + seq!['/'] + relative =~= base + relative);
    }
    if base.contains('/') {
        let j = choose|j: int| 0 <= j < base.len() && base[j] == '/';
        assert(base[j] == '/');
    }
}

impl Epub {
    /// Resolves `relative_path` against the directory of `base_path`.
    pub fn resolve_path(base_path: &str, relative_path: &str) -> (r: String)
        ensures
            r@ == resolved_path(base_path@, relative_path@),
    {
        let chars = chars_of(base_path);
        match rfind_char(&chars, '/') {
            Some(slash) => {
                proof {
                    lemma_last_index_of(base_path@, '/');
                    reveal_strlit("/");
                    assert("/"@ =~= seq!['/']);
                }
                let mut out = String::from_str(base_path.substring_char(0, slash));
                out.append("/");
                out.append(relative_path);
                out
            },
            None => String::from_str(relative_path),
        }
    }
}

} // verus!
