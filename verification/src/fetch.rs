//! Bringing one image into the cache, step by step. The caller does what a
//! state asks for (makes a directory, looks for a file, downloads, writes) and
//! reports how it went; `Fetch::advance` decides what follows.

use vstd::prelude::*;
use crate::cache::{
    entry_of, file_name_of, lemma_entry_of_wf, lemma_trailing_slash_resolves_to_root, CacheEntry,
    CacheEntryView, ImageCache,
};
use crate::error::{ClientError, ClientErrorView};

verus! {

/// A fetch in progress. Each state but `Done` asks the caller for one action.
#[derive(Debug, PartialEq, Eq)]
pub enum Fetch {
    /// Make sure that the directory `target.root()` exists, with every
    /// directory above it.
    EnsureRoot { url: String, target: CacheEntry },
    /// See whether anything exists at `target`.
    Probe { url: String, target: CacheEntry },
    /// Get the whole body at `url`.
    Download { url: String, target: CacheEntry },
    /// Write `body` to the file at `target`, in place of what it held.
    Store { target: CacheEntry, body: Vec<u8> },
    /// Nothing is left to do: the entry where the image is, or the failure.
    Done(Result<CacheEntry, ClientError>),
}

/// What a `Fetch` holds.
pub enum FetchView {
    EnsureRoot { url: Seq<char>, target: CacheEntryView },
    Probe { url: Seq<char>, target: CacheEntryView },
    Download { url: Seq<char>, target: CacheEntryView },
    Store { target: CacheEntryView, body: Seq<u8> },
    Done(Result<CacheEntryView, ClientErrorView>),
}

impl View for Fetch {
    type V = FetchView;

    open spec fn view(&self) -> FetchView {
        match self {
            Fetch::EnsureRoot { url, target } => FetchView::EnsureRoot {
                url: url@,
                target: target@,
            },
            Fetch::Probe { url, target } => FetchView::Probe { url: url@, target: target@ },
            Fetch::Download { url, target } => FetchView::Download { url: url@, target: target@ },
            Fetch::Store { target, body } => FetchView::Store { target: target@, body: body@ },
            Fetch::Done(Ok(entry)) => FetchView::Done(Ok(entry@)),
            Fetch::Done(Err(e)) => FetchView::Done(Err(e@)),
        }
    }
}

/// How the action that a state asked for went.
#[derive(Debug, PartialEq, Eq)]
pub enum FetchEvent {
    /// The directory exists, or the file is written.
    Completed,
    /// The action failed; the reason is held.
    Failed(String),
    /// Whether anything exists at the target.
    Exists(bool),
    /// The body that was downloaded.
    Body(Vec<u8>),
}

/// What a `FetchEvent` holds.
pub enum FetchEventView {
    Completed,
    Failed(Seq<char>),
    Exists(bool),
    Body(Seq<u8>),
}

impl View for FetchEvent {
    type V = FetchEventView;

    open spec fn view(&self) -> FetchEventView {
        match self {
            FetchEvent::Completed => FetchEventView::Completed,
            FetchEvent::Failed(reason) => FetchEventView::Failed(reason@),
            FetchEvent::Exists(found) => FetchEventView::Exists(*found),
            FetchEvent::Body(body) => FetchEventView::Body(body@),
        }
    }
}

/// Whether `target` is the entry that `url` resolves to, and can hold an image.
pub open spec fn is_target_of(target: CacheEntryView, url: Seq<char>) -> bool {
    target == entry_of(target.root, url) && target.names_a_file()
}

impl FetchView {
    /// While a fetch holds an address, its target is the entry that the
    /// address resolves to; and every target has a name.
    pub open spec fn wf(self) -> bool {
        match self {
            FetchView::EnsureRoot { url, target } => is_target_of(target, url),
            FetchView::Probe { url, target } => is_target_of(target, url),
            FetchView::Download { url, target } => is_target_of(target, url),
            FetchView::Store { target, .. } => target.wf() && target.names_a_file(),
            FetchView::Done(Ok(entry)) => entry.wf() && entry.names_a_file(),
            FetchView::Done(Err(_)) => true,
        }
    }
}

/// The first state of a fetch of `url` into a cache under `root`. An address
/// without a file name is refused: its entry is the cache root itself, which
/// can hold no image.
pub open spec fn start(root: Seq<char>, url: Seq<char>) -> FetchView {
    if entry_of(root, url).names_a_file() {
        FetchView::EnsureRoot { url, target: entry_of(root, url) }
    } else {
        FetchView::Done(Err(ClientErrorView::InvalidUrl(url)))
    }
}

/// The state that follows `state` when `event` is reported. An event that
/// does not answer what `state` asked for leaves the state as it is.
pub open spec fn step(state: FetchView, event: FetchEventView) -> FetchView {
    match (state, event) {
        (FetchView::EnsureRoot { url, target }, FetchEventView::Completed) => FetchView::Probe {
            url,
            target,
        },
        (FetchView::EnsureRoot { .. }, FetchEventView::Failed(reason)) => FetchView::Done(
            Err(ClientErrorView::Io(reason)),
        ),
        (FetchView::Probe { url, target }, FetchEventView::Exists(found)) => if found {
            FetchView::Done(Ok(target))
        } else {
            FetchView::Download { url, target }
        },
        (FetchView::Download { url, target }, FetchEventView::Body(body)) => FetchView::Store {
            target,
            body,
        },
        (FetchView::Download { .. }, FetchEventView::Failed(reason)) => FetchView::Done(
            Err(ClientErrorView::Network(reason)),
        ),
        (FetchView::Store { target, body }, FetchEventView::Completed) => FetchView::Done(
            Ok(target),
        ),
        (FetchView::Store { .. }, FetchEventView::Failed(reason)) => FetchView::Done(
            Err(ClientErrorView::Io(reason)),
        ),
        (state, _) => state,
    }
}

/// A fetch begins well formed.
pub proof fn lemma_start_is_wf(root: Seq<char>, url: Seq<char>)
    ensures
        start(root, url).wf(),
{
}

/// A step keeps a fetch well formed.
pub proof fn lemma_step_keeps_wf(state: FetchView, event: FetchEventView)
    requires
        state.wf(),
    ensures
        step(state, event).wf(),
{
    match state {
        FetchView::EnsureRoot { url, target } => lemma_entry_of_wf(target.root, url),
        FetchView::Probe { url, target } => lemma_entry_of_wf(target.root, url),
        FetchView::Download { url, target } => lemma_entry_of_wf(target.root, url),
        _ => {},
    }
}

/// A fetch of an address that has no file name is done before it has begun:
/// it fails with `InvalidUrl`, and asks for nothing. Every other fetch begins
/// by asking for the cache root.
pub proof fn lemma_fetch_without_file_name_is_refused(root: Seq<char>, url: Seq<char>)
    ensures
        file_name_of(url).len() == 0 ==> start(root, url) == FetchView::Done(
            Err(ClientErrorView::InvalidUrl(url)),
        ),
        file_name_of(url).len() > 0 ==> start(root, url) == (FetchView::EnsureRoot {
            url,
            target: entry_of(root, url),
        }),
{
}

/// A fetch of an address that ends in `/` is refused.
pub proof fn lemma_fetch_of_trailing_slash_is_refused(root: Seq<char>, head: Seq<char>)
    ensures
        start(root, head.push('/')) == FetchView::Done(
            Err(ClientErrorView::InvalidUrl(head.push('/'))),
        ),
{
    lemma_trailing_slash_resolves_to_root(root, head);
}

impl ImageCache {
    /// Begins to bring the image at `url` into the cache. An address without a
    /// file name is refused at once, before anything is asked of the caller.
    pub fn fetch_and_store(&self, url: &str) -> (fetch: Fetch)
        ensures
            fetch@ == start(self@, url@),
            fetch@.wf(),
    {
        proof {
            lemma_start_is_wf(self@, url@);
        }
        let target = self.resolve_path(url);
        if target.name().is_empty() {
            Fetch::Done(Err(ClientError::InvalidUrl(url.to_owned())))
        } else {
            Fetch::EnsureRoot { url: url.to_owned(), target }
        }
    }
}

impl Fetch {
    /// Takes the report of the action that this state asked for, and gives the
    /// state that follows.
    pub fn advance(self, event: FetchEvent) -> (next: Fetch)
        ensures
            next@ == step(self@, event@),
            self@.wf() ==> next@.wf(),
    {
        proof {
            if self@.wf() {
                lemma_step_keeps_wf(self@, event@);
            }
        }
        match (self, event) {
            (Fetch::EnsureRoot { url, target }, FetchEvent::Completed) => Fetch::Probe {
                url,
                target,
            },
            (Fetch::EnsureRoot { .. }, FetchEvent::Failed(reason)) => Fetch::Done(
                Err(ClientError::Io(reason)),
            ),
            (Fetch::Probe { url, target }, FetchEvent::Exists(found)) => if found {
                Fetch::Done(Ok(target))
            } else {
                Fetch::Download { url, target }
            },
            (Fetch::Download { url, target }, FetchEvent::Body(body)) => Fetch::Store {
                target,
                body,
            },
            (Fetch::Download { .. }, FetchEvent::Failed(reason)) => Fetch::Done(
                Err(ClientError::Network(reason)),
            ),
            (Fetch::Store { target, body }, FetchEvent::Completed) => Fetch::Done(Ok(target)),
            (Fetch::Store { .. }, FetchEvent::Failed(reason)) => Fetch::Done(
                Err(ClientError::Io(reason)),
            ),
            (state, _) => state,
        }
    }
}

} // verus!
