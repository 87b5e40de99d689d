//! The corpus's ignore rules, as a matcher built by the `ignore` crate.

use vstd::prelude::*;
use crate::pipeline::SourceDoc;

verus! {

#[verifier::external_type_specification]
#[verifier::external_body]
pub struct ExGitignore(ignore::gitignore::Gitignore);

/// The paths, each with whether it is a directory, that a matcher's rules
/// ignore (matched and not whitelisted).
pub uninterp spec fn ignored_by(g: ignore::gitignore::Gitignore) -> Set<(Seq<char>, bool)>;

/// Relies on `ignore::gitignore::Gitignore::matched`, which depends on the
/// matcher, the path and `is_dir` alone: whether the rules ignore `path`.
#[verifier::external_body]
pub(crate) fn ignore_matches(g: &ignore::gitignore::Gitignore, path: &str, is_dir: bool) -> (r: bool)
    ensures
        r == ignored_by(*g).contains((path@, is_dir)),
{
    g.matched(path, is_dir).is_ignore()
}

/// Marks each scanned document whose corpus-relative path the rules ignore;
/// a document already marked stays marked, and nothing else changes.
pub fn mark_ignored(rules: &ignore::gitignore::Gitignore, docs: &mut Vec<SourceDoc>)
    ensures
        final(docs)@.len() == old(docs)@.len(),
        forall|i: int|
            #![trigger final(docs)@[i]]
            0 <= i < final(docs)@.len() ==> {
                &&& final(docs)@[i].path == old(docs)@[i].path
                &&& final(docs)@[i].contents == old(docs)@[i].contents
                &&& final(docs)@[i].ignored == (old(docs)@[i].ignored || ignored_by(*rules).contains(
                    (old(docs)@[i].path@, false),
                ))
            },
{
    let n = docs.len();
    let mut i: usize = 0;
    while i < n
        invariant
            n == old(docs)@.len(),
            docs@.len() == n,
            i <= n,
            forall|j: int|
                #![trigger docs@[j]]
                0 <= j < i ==> {
                    &&& docs@[j].path == old(docs)@[j].path
                    &&& docs@[j].contents == old(docs)@[j].contents
                    &&& docs@[j].ignored == (old(docs)@[j].ignored || ignored_by(*rules).contains(
                        (old(docs)@[j].path@, false),
                    ))
                },
            forall|j: int| i <= j < n ==> #[trigger] docs@[j] == old(docs)@[j],
        decreases n - i,
    {
        let hit = ignore_matches(rules, docs[i].path.as_str(), false);
        if hit {
            docs[i].ignored = true;
        }
        i = i + 1;
    }
}

} // verus!
