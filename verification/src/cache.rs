//! Cache entries: the file name that an image address maps to, and the place
//! of that file under the cache root.
//!
//! The file name is the text after the last `/` of the address, and the entry
//! of an address is the cache root joined with that name. An address that ends
//! in `/`, or holds no `/` at all, has the empty name: its entry is the cache
//! root itself. Such an entry can be looked at, but no image is fetched into
//! it. Two addresses with one file name share an entry. A name is taken as it
//! stands: none is refused for what it means to a file system.

use vstd::prelude::*;

verus! {

/// Position of the last `/` in `url`, or `-1` when it holds none.
pub open spec fn last_slash(url: Seq<char>) -> int
    decreases url.len(),
{
    if url.len() == 0 {
        -1
    } else if url.last() == '/' {
        url.len() - 1
    } else {
        last_slash(url.drop_last())
    }
}

/// The text after the last `/` of `url`; empty when `url` holds no `/`.
pub open spec fn file_name_of(url: Seq<char>) -> Seq<char> {
    if last_slash(url) < 0 {
        Seq::empty()
    } else {
        url.subrange(last_slash(url) + 1, url.len() as int)
    }
}

/// `last_slash` of a text that grew by one character.
proof fn lemma_last_slash_push(url: Seq<char>, c: char)
    ensures
        last_slash(url.push(c)) == if c == '/' {
            url.len() as int
        } else {
            last_slash(url)
        },
{
    assert(url.push(c).drop_last() == url);
}

/// `last_slash` is a position of `url` that holds a `/`, after which none
/// follows; or it is `-1`, and `url` holds none.
pub proof fn lemma_last_slash_is_last(url: Seq<char>)
    ensures
        -1 <= last_slash(url) < url.len(),
        last_slash(url) >= 0 ==> url[last_slash(url)] == '/',
        forall|i: int| last_slash(url) < i < url.len() ==> url[i] != '/',
    decreases url.len(),
{
    if url.len() > 0 && url.last() != '/' {
        let shorter = url.drop_last();
        lemma_last_slash_is_last(shorter);
        assert forall|i: int| last_slash(url) < i < url.len() implies url[i] != '/' by {
            if i < shorter.len() {
                assert(url[i] == shorter[i]);
            }
        }
    }
}

/// The file name of an address is the text after its final `/`: for every
/// `head`, and every `name` that holds no `/`, the address `head`, `/`, `name`
/// has the file name `name`.
pub proof fn lemma_file_name_after_final_slash(head: Seq<char>, name: Seq<char>)
    requires
        !name.contains('/'),
    ensures
        file_name_of(head.push('/') + name) == name,
{
    let url = head.push('/') + name;
    lemma_last_slash_is_last(url);
    let at = last_slash(url);
    assert(url[head.len() as int] == '/');
    if at > head.len() {
        assert(url[at] == name[at - head.len() - 1]);
        assert(name.contains(name[at - head.len() - 1]));
    }
    assert(at == head.len());
    assert(url.subrange(at + 1, url.len() as int) =~= name);
}

/// An address that holds no `/` has no file name.
pub proof fn lemma_no_slash_no_file_name(url: Seq<char>)
    requires
        !url.contains('/'),
    ensures
        file_name_of(url) == Seq::<char>::empty(),
{
    lemma_last_slash_is_last(url);
    if last_slash(url) >= 0 {
        assert(url.contains(url[last_slash(url)]));
    }
}

/// A file name holds no `/`.
pub proof fn lemma_file_name_has_no_slash(url: Seq<char>)
    ensures
        !file_name_of(url).contains('/'),
{
    lemma_last_slash_is_last(url);
    let name = file_name_of(url);
    if name.contains('/') {
        let i = choose|i: int| 0 <= i < name.len() && name[i] == '/';
        assert(url[last_slash(url) + 1 + i] == '/');
    }
}

/// The file name that the address `url` gives its cache entry: the text after
/// its last `/`, and the empty text where `url` holds no `/`.
pub fn file_name(url: &str) -> (name: String)
    ensures
        name@ == file_name_of(url@),
{
    let n = url.unicode_len();
    let mut after: usize = 0;
    let mut seen: usize = 0;
    for c in it: url.chars()
        invariant
            seen == it.index(),
            it.seq() == url@,
            n == url@.len(),
            after <= seen <= n,
            after as int == last_slash(url@.take(seen as int)) + 1,
    {
        proof {
            lemma_last_slash_push(url@.take(seen as int), c);
            assert(url@.take(seen as int).push(c) == url@.take(seen + 1));
        }
        seen = seen + 1;
        if c == '/' {
            after = seen;
        }
    }
    assert(url@.take(seen as int) == url@);
    if after == 0 {
        String::new()
    } else {
        url.substring_char(after, n).to_owned()
    }
}

/// A place in the cache: what is called `name`, directly under `root`. With
/// the empty name it is `root` itself.
#[derive(Debug, PartialEq, Eq)]
pub struct CacheEntry {
    root: String,
    name: String,
}

/// What a `CacheEntry` holds.
pub struct CacheEntryView {
    pub root: Seq<char>,
    pub name: Seq<char>,
}

impl CacheEntryView {
    /// The name of an entry holds no `/`.
    pub open spec fn wf(self) -> bool {
        !self.name.contains('/')
    }

    /// Whether the entry can hold an image: it has a name.
    pub open spec fn names_a_file(self) -> bool {
        self.name.len() > 0
    }
}

impl View for CacheEntry {
    type V = CacheEntryView;

    closed spec fn view(&self) -> CacheEntryView {
        CacheEntryView { root: self.root@, name: self.name@ }
    }
}

impl Clone for CacheEntry {
    fn clone(&self) -> (copy: CacheEntry)
        ensures
            copy@ == self@,
    {
        proof {
            use_type_invariant(self);
        }
        CacheEntry { root: self.root.clone(), name: self.name.clone() }
    }
}

impl CacheEntry {
    #[verifier::type_invariant]
    spec fn well_formed(self) -> bool {
        self@.wf()
    }

    /// The directory that holds the entry.
    pub fn root(&self) -> (root: &str)
        ensures
            root@ == self@.root,
    {
        self.root.as_str()
    }

    /// The name of the entry under its root: without `/`, and empty where the
    /// entry is the root itself.
    pub fn name(&self) -> (name: &str)
        ensures
            name@ == self@.name,
            self@.wf(),
    {
        proof {
            use_type_invariant(self);
        }
        self.name.as_str()
    }
}

/// The entry of the address `url` in a cache under `root`: the root, joined
/// with the text after the last `/` of `url`.
pub open spec fn entry_of(root: Seq<char>, url: Seq<char>) -> CacheEntryView {
    CacheEntryView { root, name: file_name_of(url) }
}

/// Every entry that an address resolves to is well formed.
pub proof fn lemma_entry_of_wf(root: Seq<char>, url: Seq<char>)
    ensures
        entry_of(root, url).wf(),
{
    lemma_file_name_has_no_slash(url);
}

/// An address resolves to the cache root joined with the text after its
/// final `/`: for every `head`, and every `name` that holds no `/`, the
/// address `head`, `/`, `name` has the entry `name` under the root.
pub proof fn lemma_resolves_to_text_after_final_slash(
    root: Seq<char>,
    head: Seq<char>,
    name: Seq<char>,
)
    requires
        !name.contains('/'),
    ensures
        entry_of(root, head.push('/') + name) == (CacheEntryView { root, name }),
{
    lemma_file_name_after_final_slash(head, name);
}

/// An address that ends in `/` resolves to the entry with the empty name,
/// which is the cache root itself.
pub proof fn lemma_trailing_slash_resolves_to_root(root: Seq<char>, head: Seq<char>)
    ensures
        entry_of(root, head.push('/')) == (CacheEntryView { root, name: Seq::empty() }),
        !entry_of(root, head.push('/')).names_a_file(),
{
    assert(head.push('/') + Seq::<char>::empty() == head.push('/'));
    lemma_file_name_after_final_slash(head, Seq::empty());
}

/// An address that holds no `/` resolves to the cache root itself, as one
/// that ends in `/` does.
pub proof fn lemma_no_slash_resolves_to_root(root: Seq<char>, url: Seq<char>)
    requires
        !url.contains('/'),
    ensures
        entry_of(root, url) == (CacheEntryView { root, name: Seq::empty() }),
        !entry_of(root, url).names_a_file(),
{
    lemma_no_slash_no_file_name(url);
}

/// Resolving is a function of the address alone: asked twice for one address,
/// a cache gives one entry.
pub proof fn lemma_resolve_is_deterministic(root: Seq<char>, first: Seq<char>, second: Seq<char>)
    requires
        first =~= second,
    ensures
        entry_of(root, first) == entry_of(root, second),
{
}

/// Finding out whether an image is cached. The caller looks at the entry that
/// `Probe` names and reports what it found; `Check::advance` gives the answer.
#[derive(Debug, Clone, PartialEq, Eq)]
pub enum Check {
    /// See whether anything exists at this entry, be it a file or a
    /// directory, empty or not.
    Probe(CacheEntry),
    /// The answer: whether the image is cached.
    Done(bool),
}

/// What a `Check` holds.
pub enum CheckView {
    Probe(CacheEntryView),
    Done(bool),
}

impl View for Check {
    type V = CheckView;

    open spec fn view(&self) -> CheckView {
        match self {
            Check::Probe(entry) => CheckView::Probe(entry@),
            Check::Done(found) => CheckView::Done(*found),
        }
    }
}

/// The first state of the check of `url` in a cache under `root`: whatever
/// the address, it asks for a look at the entry of the address.
pub open spec fn check_for(root: Seq<char>, url: Seq<char>) -> CheckView {
    CheckView::Probe(entry_of(root, url))
}

/// The state that follows `check` when the caller reports `found`: the answer
/// to a probe is what was found, and an answer stays as it is.
pub open spec fn check_step(check: CheckView, found: bool) -> CheckView {
    match check {
        CheckView::Probe(_) => CheckView::Done(found),
        CheckView::Done(answer) => CheckView::Done(answer),
    }
}

/// The image cache: one directory, fixed when the cache is made, under which
/// every image is kept.
#[derive(Debug, Clone, PartialEq, Eq)]
pub struct ImageCache {
    root: String,
}

impl View for ImageCache {
    type V = Seq<char>;

    /// The cache root.
    closed spec fn view(&self) -> Seq<char> {
        self.root@
    }
}

impl ImageCache {
    /// A cache under the directory `root`.
    pub fn new(root: String) -> (cache: ImageCache)
        ensures
            cache@ == root@,
    {
        ImageCache { root }
    }

    /// The cache root.
    pub fn root(&self) -> (root: &str)
        ensures
            root@ == self@,
    {
        self.root.as_str()
    }

    /// The cache entry of the address `url`. Nothing is read or written.
    pub fn resolve_path(&self, url: &str) -> (entry: CacheEntry)
        ensures
            entry@ == entry_of(self@, url@),
            entry@.wf(),
    {
        proof {
            lemma_entry_of_wf(self@, url@);
        }
        CacheEntry { root: self.root.clone(), name: file_name(url) }
    }

    /// Begins to find out whether the image at `url` is cached: for every
    /// address, by a look at the entry that the address resolves to. Nothing
    /// is read or written here.
    pub fn check_cached(&self, url: &str) -> (check: Check)
        ensures
            check@ == check_for(self@, url@),
    {
        Check::Probe(self.resolve_path(url))
    }
}

impl Check {
    /// Takes the report of the probe: whether anything exists at the entry.
    /// That is the answer; nothing else decides it.
    pub fn advance(self, found: bool) -> (next: Check)
        ensures
            next@ == check_step(self@, found),
    {
        match self {
            Check::Probe(_) => Check::Done(found),
            Check::Done(answer) => Check::Done(answer),
        }
    }
}

} // verus!
