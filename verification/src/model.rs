//! Runs of a fetch against a cache, as a model: the cache is the set of the
//! entries at which something exists, and a run is the list of the reports
//! that the caller gave, each with what the cache held after it. The entry
//! with the empty name stands for the cache root itself. The laws of this file
//! hold of every run in which each report is true of that cache.

use vstd::prelude::*;
use crate::cache::{check_for, check_step, entry_of, CacheEntryView, CheckView};
use crate::fetch::{start, step, FetchEventView, FetchView};

verus! {

/// One turn of a run: what was reported, and the entries that the cache held
/// after the action.
pub struct Turn {
    pub event: FetchEventView,
    pub files: Set<CacheEntryView>,
}

/// Whether `event` is a report of the action that `state` asks for, true of a
/// cache that holds `files`. Only a probe is answered by the cache; the other
/// actions may go well or fail.
pub open spec fn reports(
    files: Set<CacheEntryView>,
    state: FetchView,
    event: FetchEventView,
) -> bool {
    match state {
        FetchView::EnsureRoot { .. } => event is Completed || event is Failed,
        FetchView::Probe { target, .. } => event == FetchEventView::Exists(files.contains(target)),
        FetchView::Download { .. } => event is Body || event is Failed,
        FetchView::Store { .. } => event is Completed || event is Failed,
        FetchView::Done(_) => false,
    }
}

/// The cache root as an entry: the one with the empty name.
pub open spec fn root_entry(root: Seq<char>) -> CacheEntryView {
    CacheEntryView { root, name: Seq::empty() }
}

/// Whether a cache that held `files` may hold `later` once `event` was
/// reported in `state`. Making the root leaves the root in existence, and a
/// write that was completed leaves something at its target; either may have
/// done so although it failed. No other action changes what exists at an
/// entry.
pub open spec fn leaves(
    files: Set<CacheEntryView>,
    state: FetchView,
    event: FetchEventView,
    later: Set<CacheEntryView>,
) -> bool {
    match (state, event) {
        (FetchView::EnsureRoot { target, .. }, FetchEventView::Completed) => later
            == files.insert(root_entry(target.root)),
        (FetchView::EnsureRoot { target, .. }, FetchEventView::Failed(_)) => later == files
            || later == files.insert(root_entry(target.root)),
        (FetchView::Store { target, .. }, FetchEventView::Completed) => later == files.insert(
            target,
        ),
        (FetchView::Store { target, .. }, FetchEventView::Failed(_)) => later == files || later
            == files.insert(target),
        _ => later == files,
    }
}

/// Whether `turns` is a run from `state` in a cache that holds `files`: each
/// report is true of the cache as the turn before left it.
pub open spec fn is_run(state: FetchView, files: Set<CacheEntryView>, turns: Seq<Turn>) -> bool
    decreases turns.len(),
{
    turns.len() == 0 || {
        &&& reports(files, state, turns[0].event)
        &&& leaves(files, state, turns[0].event, turns[0].files)
        &&& is_run(step(state, turns[0].event), turns[0].files, turns.drop_first())
    }
}

/// The state that `turns` lead to from `state`.
pub open spec fn state_after(state: FetchView, turns: Seq<Turn>) -> FetchView
    decreases turns.len(),
{
    if turns.len() == 0 {
        state
    } else {
        state_after(step(state, turns[0].event), turns.drop_first())
    }
}

/// What the cache holds after `turns`, when it held `files` before them.
pub open spec fn files_after(files: Set<CacheEntryView>, turns: Seq<Turn>) -> Set<CacheEntryView> {
    if turns.len() == 0 {
        files
    } else {
        turns.last().files
    }
}

/// How many reports a state can still take before the fetch is done.
pub open spec fn turns_left(state: FetchView) -> nat {
    match state {
        FetchView::EnsureRoot { .. } => 4,
        FetchView::Probe { .. } => 3,
        FetchView::Download { .. } => 2,
        FetchView::Store { .. } => 1,
        FetchView::Done(_) => 0,
    }
}

/// A run is short: each report brings the fetch nearer to its end, so from
/// `state` there are at most `turns_left(state)` of them, and a whole fetch
/// takes no more than four.
pub proof fn lemma_run_is_short(state: FetchView, files: Set<CacheEntryView>, turns: Seq<Turn>)
    requires
        is_run(state, files, turns),
    ensures
        turns.len() + turns_left(state_after(state, turns)) <= turns_left(state),
        turns.len() <= 4,
    decreases turns.len(),
{
    if turns.len() > 0 {
        lemma_run_is_short(step(state, turns[0].event), turns[0].files, turns.drop_first());
    }
}

/// A state of a fetch of `entry` in a cache that holds `files`: it is after no
/// other entry, and where it is done with success, the entry exists.
spec fn aims_at(state: FetchView, entry: CacheEntryView, files: Set<CacheEntryView>) -> bool {
    match state {
        FetchView::EnsureRoot { target, .. } => target == entry,
        FetchView::Probe { target, .. } => target == entry,
        FetchView::Download { target, .. } => target == entry,
        FetchView::Store { target, .. } => target == entry,
        FetchView::Done(Ok(found)) => found == entry && files.contains(entry),
        FetchView::Done(Err(_)) => true,
    }
}

/// A run keeps its aim: it ends after the same entry, and with success only
/// where the cache then holds it.
proof fn lemma_run_keeps_aim(
    state: FetchView,
    entry: CacheEntryView,
    files: Set<CacheEntryView>,
    turns: Seq<Turn>,
)
    requires
        aims_at(state, entry, files),
        is_run(state, files, turns),
    ensures
        aims_at(state_after(state, turns), entry, files_after(files, turns)),
    decreases turns.len(),
{
    if turns.len() > 0 {
        let rest = turns.drop_first();
        lemma_run_keeps_aim(step(state, turns[0].event), entry, turns[0].files, rest);
        if rest.len() > 0 {
            assert(rest.last() == turns.last());
        }
    }
}

/// A state of a fetch of `entry` that has found, or will find, the entry in
/// the cache: it asks for no download and for no write.
spec fn finds(state: FetchView, entry: CacheEntryView, files: Set<CacheEntryView>) -> bool {
    &&& files.contains(entry)
    &&& match state {
        FetchView::EnsureRoot { target, .. } => target == entry,
        FetchView::Probe { target, .. } => target == entry,
        FetchView::Download { .. } => false,
        FetchView::Store { .. } => false,
        FetchView::Done(_) => true,
    }
}

/// A run from a state that finds its entry never comes to a download or a
/// write.
proof fn lemma_run_keeps_finding(
    state: FetchView,
    entry: CacheEntryView,
    files: Set<CacheEntryView>,
    turns: Seq<Turn>,
    k: int,
)
    requires
        finds(state, entry, files),
        is_run(state, files, turns),
        0 <= k <= turns.len(),
    ensures
        !(state_after(state, turns.take(k)) is Download),
        !(state_after(state, turns.take(k)) is Store),
    decreases turns.len(),
{
    if k > 0 {
        let rest = turns.drop_first();
        assert(turns.take(k)[0] == turns[0]);
        assert(turns.take(k).drop_first() == rest.take(k - 1));
        lemma_run_keeps_finding(step(state, turns[0].event), entry, turns[0].files, rest, k - 1);
    }
}

/// A state of a fetch that is after another entry than `entry`.
spec fn avoids(state: FetchView, entry: CacheEntryView) -> bool {
    match state {
        FetchView::EnsureRoot { target, .. } => target != entry,
        FetchView::Probe { target, .. } => target != entry,
        FetchView::Download { target, .. } => target != entry,
        FetchView::Store { target, .. } => target != entry,
        FetchView::Done(_) => true,
    }
}

/// A run leaves absent every named entry that it is not after.
proof fn lemma_run_keeps_away(
    state: FetchView,
    entry: CacheEntryView,
    files: Set<CacheEntryView>,
    turns: Seq<Turn>,
)
    requires
        avoids(state, entry),
        entry.names_a_file(),
        !files.contains(entry),
        is_run(state, files, turns),
    ensures
        !files_after(files, turns).contains(entry),
    decreases turns.len(),
{
    if turns.len() > 0 {
        let rest = turns.drop_first();
        lemma_run_keeps_away(step(state, turns[0].event), entry, turns[0].files, rest);
        if rest.len() > 0 {
            assert(rest.last() == turns.last());
        }
    }
}

/// Whether the image at `url` is in a cache under `root` that holds `files`:
/// whether the cache holds the entry that `url` resolves to.
pub open spec fn is_cached(root: Seq<char>, url: Seq<char>, files: Set<CacheEntryView>) -> bool {
    files.contains(entry_of(root, url))
}

/// A check ends with what the cache holds: when its probe is answered by the
/// cache, the answer is whether something exists at the entry of the address,
/// whatever the address is and whatever else the cache holds.
pub proof fn lemma_check_tells_what_the_cache_holds(
    root: Seq<char>,
    url: Seq<char>,
    files: Set<CacheEntryView>,
)
    ensures
        check_for(root, url) == CheckView::Probe(entry_of(root, url)),
        check_step(check_for(root, url), files.contains(entry_of(root, url))) == CheckView::Done(
            is_cached(root, url, files),
        ),
{
}

/// An image is not cached before it was written. Nothing is cached in an
/// empty cache; and an image with a file name that is not cached is still not
/// cached after a fetch of an address with another entry, however that fetch
/// went.
pub proof fn lemma_unwritten_is_not_cached(
    root: Seq<char>,
    url: Seq<char>,
    files: Set<CacheEntryView>,
    other_root: Seq<char>,
    other_url: Seq<char>,
    turns: Seq<Turn>,
)
    requires
        entry_of(root, url).names_a_file(),
        !is_cached(root, url, files),
        entry_of(other_root, other_url) != entry_of(root, url),
        is_run(start(other_root, other_url), files, turns),
    ensures
        !is_cached(root, url, Set::empty()),
        !is_cached(root, url, files_after(files, turns)),
{
    lemma_run_keeps_away(start(other_root, other_url), entry_of(root, url), files, turns);
}

/// When a fetch has ended with success, the cache holds the entry of the
/// address that was fetched, and that entry is the result: the image is
/// cached from then on.
pub proof fn lemma_fetched_entry_exists(
    root: Seq<char>,
    url: Seq<char>,
    files: Set<CacheEntryView>,
    turns: Seq<Turn>,
    entry: CacheEntryView,
)
    requires
        is_run(start(root, url), files, turns),
        state_after(start(root, url), turns) == FetchView::Done(Ok(entry)),
    ensures
        entry == entry_of(root, url),
        entry.names_a_file(),
        files_after(files, turns).contains(entry),
        is_cached(root, url, files_after(files, turns)),
{
    if entry_of(root, url).names_a_file() {
        lemma_run_keeps_aim(start(root, url), entry_of(root, url), files, turns);
    } else if turns.len() > 0 {
        assert(!reports(files, start(root, url), turns[0].event));
    }
}

/// A fetch of an address whose entry the cache holds asks for no download and
/// for no write, at any moment of its run.
pub proof fn lemma_present_entry_is_not_fetched(
    root: Seq<char>,
    url: Seq<char>,
    files: Set<CacheEntryView>,
    turns: Seq<Turn>,
    k: int,
)
    requires
        is_cached(root, url, files),
        is_run(start(root, url), files, turns),
        0 <= k <= turns.len(),
    ensures
        !(state_after(start(root, url), turns.take(k)) is Download),
        !(state_after(start(root, url), turns.take(k)) is Store),
{
    lemma_run_keeps_finding(start(root, url), entry_of(root, url), files, turns, k);
}

/// Of two fetches of one address, the second following the first at once:
/// where the first ended with success, the second asks for no download.
pub proof fn lemma_second_fetch_downloads_nothing(
    root: Seq<char>,
    url: Seq<char>,
    files: Set<CacheEntryView>,
    first: Seq<Turn>,
    second: Seq<Turn>,
    k: int,
)
    requires
        is_run(start(root, url), files, first),
        state_after(start(root, url), first) is Done,
        state_after(start(root, url), first)->Done_0 is Ok,
        is_run(start(root, url), files_after(files, first), second),
        0 <= k <= second.len(),
    ensures
        !(state_after(start(root, url), second.take(k)) is Download),
{
    let entry = state_after(start(root, url), first)->Done_0->Ok_0;
    lemma_fetched_entry_exists(root, url, files, first, entry);
    lemma_present_entry_is_not_fetched(root, url, files_after(files, first), second, k);
}

} // verus!
