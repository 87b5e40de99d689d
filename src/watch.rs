//! The incremental path: the watcher's state machine, and the processing of
//! one revised document against the store.

use vstd::prelude::*;
use crate::fingerprint::{content_fingerprint, fingerprint};
use crate::ignore_rules::{ignore_matches, ignored_by};
use crate::paths::{relative_spec, relative_to};
use crate::store::{upsert_spec, RowView, Store};

verus! {

/// What processing one revision did.
#[derive(PartialEq, Eq, Structural, Clone, Copy, Debug)]
pub enum Revision {
    /// The path does not lie under the corpus root; nothing changed.
    OutsideCorpus,
    /// The ignore rules match the path; nothing changed.
    Ignored,
    /// The stored row already has this content's fingerprint; nothing changed.
    Unchanged,
    /// The row was written; this document alone is to be rendered again.
    Updated,
}

/// Processes a revision of the document at relative path `rel` whose new
/// content is `contents`: an ignored path is passed over; otherwise the
/// fingerprint is compared with the stored row's, and the row is written,
/// keyed on the path, only when they differ or there is no row.
pub fn apply_revision(store: &mut Store, rel: String, contents: String, ignored: bool) -> (r: Revision)
    requires
        old(store).wf(),
    ensures
        final(store).wf(),
        ignored ==> r == Revision::Ignored && final(store)@ == old(store)@,
        !ignored && old(store)@.contains_key(rel@) && old(store)@[rel@].fingerprint == content_fingerprint(
            contents@,
        ) ==> r == Revision::Unchanged && final(store)@ == old(store)@,
        !ignored && !(old(store)@.contains_key(rel@) && old(store)@[rel@].fingerprint
            == content_fingerprint(contents@)) ==> r == Revision::Updated && final(store)@ == upsert_spec(
            old(store)@,
            rel@,
            content_fingerprint(contents@),
            contents@,
        ),
{
    if ignored {
        return Revision::Ignored;
    }
    let fp = fingerprint(contents.as_str());
    let same = match store.get(&rel) {
        Some(row) => row.fingerprint == fp,
        None => false,
    };
    if same {
        Revision::Unchanged
    } else {
        store.upsert(rel, fp, contents);
        Revision::Updated
    }
}

/// Processes a watcher's revision of the file at `path`, with new content
/// `contents`, for the corpus at `root`, whose ignore rules are `rules`.
pub fn process_revision(
    store: &mut Store,
    rules: &ignore::gitignore::Gitignore,
    root: &str,
    path: &str,
    contents: String,
) -> (r: Revision)
    requires
        old(store).wf(),
    ensures
        final(store).wf(),
        relative_spec(root@, path@) is None ==> r == Revision::OutsideCorpus && final(store)@ == old(
            store,
        )@,
        relative_spec(root@, path@) is Some ==> (r == Revision::Ignored <==> ignored_by(*rules).contains(
            (path@, false),
        )),
        relative_spec(root@, path@) matches Some(rel) ==> {
            ||| (r == Revision::Ignored && final(store)@ == old(store)@)
            ||| (r == Revision::Unchanged && final(store)@ == old(store)@ && old(store)@.contains_key(rel)
                && old(store)@[rel].fingerprint == content_fingerprint(contents@))
            ||| (r == Revision::Updated && final(store)@ == upsert_spec(
                old(store)@,
                rel,
                content_fingerprint(contents@),
                contents@,
            ) && !(old(store)@.contains_key(rel) && old(store)@[rel].fingerprint == content_fingerprint(
                contents@,
            )))
        },
{
    match relative_to(root, path) {
        None => Revision::OutsideCorpus,
        Some(rel) => {
            let ignored = ignore_matches(rules, path, false);
            apply_revision(store, rel, contents, ignored)
        },
    }
}

/// Incremental update isolation: writing the row of path `p` leaves every
/// other path's row, and its presence or absence, as it was.
pub proof fn lemma_revision_isolated(
    m: Map<Seq<char>, RowView>,
    p: Seq<char>,
    fp: Seq<char>,
    contents: Seq<char>,
    q: Seq<char>,
)
    requires
        q != p,
    ensures
        upsert_spec(m, p, fp, contents).contains_key(q) == m.contains_key(q),
        m.contains_key(q) ==> upsert_spec(m, p, fp, contents)[q] == m[q],
        upsert_spec(m, p, fp, contents)[p].fingerprint == fp,
        upsert_spec(m, p, fp, contents)[p].contents == contents,
{
}

/// The watcher's state.
pub enum WatchState {
    Idle,
    /// Events for `path` are being coalesced until a quiet window passes.
    Debouncing { path: String },
    /// The revision of `path` is being processed.
    Processing { path: String },
}

/// What the watcher observed.
pub enum WatchEvent {
    /// A file was created, written or renamed to `path`.
    Changed { path: String },
    /// The debounce window passed with no further event.
    Quiet,
    /// Processing of the current revision finished.
    Done,
    /// Any other notification.
    Other,
}

/// What the watcher's loop is to do next.
pub enum WatchAction {
    Nothing,
    /// Process one revision of `path`.
    Process { path: String },
}

/// The watcher's transition on one event.
pub fn watch_step(s: WatchState, e: WatchEvent) -> (r: (WatchState, WatchAction))
    ensures
        match (s, e) {
            (WatchState::Idle, WatchEvent::Changed { path }) => {
                &&& (r.0 matches WatchState::Debouncing { path: p } && p@ == path@)
                &&& r.1 is Nothing
            },
            (WatchState::Debouncing { path: q }, WatchEvent::Changed { path }) => {
                &&& (r.0 matches WatchState::Debouncing { path: p } && p@ == path@)
                &&& (q@ == path@ ==> r.1 is Nothing)
                &&& (q@ != path@ ==> (r.1 matches WatchAction::Process { path: a } && a@ == q@))
            },
            (WatchState::Debouncing { path: q }, WatchEvent::Quiet) => {
                &&& (r.0 matches WatchState::Processing { path: p } && p@ == q@)
                &&& (r.1 matches WatchAction::Process { path: a } && a@ == q@)
            },
            (WatchState::Processing { .. }, WatchEvent::Done) => {
                &&& r.0 is Idle
                &&& r.1 is Nothing
            },
            (WatchState::Processing { .. }, WatchEvent::Changed { path }) => {
                &&& (r.0 matches WatchState::Debouncing { path: p } && p@ == path@)
                &&& r.1 is Nothing
            },
            (s0, _) => {
                &&& r.0 == s0
                &&& r.1 is Nothing
            },
        },
{
    match (s, e) {
        (WatchState::Idle, WatchEvent::Changed { path }) => (WatchState::Debouncing { path }, WatchAction::Nothing),
        (WatchState::Debouncing { path: q }, WatchEvent::Changed { path }) => {
            if q == path {
                (WatchState::Debouncing { path }, WatchAction::Nothing)
            } else {
                (WatchState::Debouncing { path }, WatchAction::Process { path: q })
            }
        },
        (WatchState::Debouncing { path: q }, WatchEvent::Quiet) => {
            let a = q.clone();
            (WatchState::Processing { path: q }, WatchAction::Process { path: a })
        },
        (WatchState::Processing { .. }, WatchEvent::Done) => (WatchState::Idle, WatchAction::Nothing),
        (WatchState::Processing { .. }, WatchEvent::Changed { path }) => (
            WatchState::Debouncing { path },
            WatchAction::Nothing,
        ),
        (s0, _) => (s0, WatchAction::Nothing),
    }
}

} // verus!
