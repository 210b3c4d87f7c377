//! The cache of derived images: a source index from base names to source
//! files, and the bytes of each variant made so far. Resolving a request is a
//! sequence of steps: each step takes what the caller observed and tells it
//! what to do next, so that the scanning, the running of commands and the
//! reading of files stay with the caller.
use vstd::prelude::*;
use vstd::string::*;

use crate::filter::arg_views;
use crate::image::{image_args, Image, ImageView};
use crate::text::{chars_of, contains_chars, occurs_in, split_back, split_back_spec};

verus! {

/// Pairs with distinct keys.
pub open spec fn keys_unique<V>(v: Seq<(String, V)>) -> bool {
    forall|i: int, j: int| 0 <= i < j < v.len() ==> v[i].0@ != v[j].0@
}

/// The map that a list of pairs stands for; a later pair wins over an
/// earlier one with the same key.
pub open spec fn map_of<V: View>(v: Seq<(String, V)>) -> Map<Seq<char>, V::V>
    decreases v.len(),
{
    if v.len() == 0 {
        Map::empty()
    } else {
        map_of(v.drop_last()).insert(v.last().0@, v.last().1@)
    }
}

proof fn lemma_map_of_domain<V: View>(v: Seq<(String, V)>, k: Seq<char>)
    ensures
        map_of(v).contains_key(k) <==> exists|i: int| 0 <= i < v.len() && v[i].0@ == k,
    decreases v.len(),
{
    if v.len() > 0 {
        lemma_map_of_domain(v.drop_last(), k);
        if map_of(v.drop_last()).contains_key(k) {
            let i = choose|i: int| 0 <= i < v.drop_last().len() && v.drop_last()[i].0@ == k;
            assert(v[i].0@ == k);
        }
        if exists|i: int| 0 <= i < v.len() && v[i].0@ == k {
            let i = choose|i: int| 0 <= i < v.len() && v[i].0@ == k;
            if i < v.len() - 1 {
                assert(v.drop_last()[i].0@ == k);
            }
        }
    }
}

proof fn lemma_map_of_value<V: View>(v: Seq<(String, V)>, i: int)
    requires
        keys_unique(v),
        0 <= i < v.len(),
    ensures
        map_of(v).contains_key(v[i].0@),
        map_of(v)[v[i].0@] == v[i].1@,
    decreases v.len(),
{
    if i < v.len() - 1 {
        assert(v.drop_last()[i] == v[i]);
        lemma_map_of_value(v.drop_last(), i);
    }
}

proof fn lemma_map_of_push<V: View>(v: Seq<(String, V)>, p: (String, V))
    ensures
        map_of(v.push(p)) == map_of(v).insert(p.0@, p.1@),
{
    assert(v.push(p).drop_last() =~= v);
}

proof fn lemma_map_of_update<V: View>(v: Seq<(String, V)>, i: int, p: (String, V))
    requires
        keys_unique(v),
        0 <= i < v.len(),
        v[i].0@ == p.0@,
    ensures
        map_of(v.update(i, p)) == map_of(v).insert(p.0@, p.1@),
    decreases v.len(),
{
    let w = v.update(i, p);
    if i == v.len() - 1 {
        assert(w.drop_last() =~= v.drop_last());
        assert(map_of(w) =~= map_of(v).insert(p.0@, p.1@));
    } else {
        assert(w.drop_last() =~= v.drop_last().update(i, p));
        lemma_map_of_update(v.drop_last(), i, p);
        assert(v.last().0@ != p.0@);
        assert(map_of(w) =~= map_of(v).insert(p.0@, p.1@));
    }
}

fn find_key<V>(v: &Vec<(String, V)>, k: &str) -> (r: Option<usize>)
    ensures
        match r {
            Some(i) => i < v@.len() && v@[i as int].0@ == k@,
            None => forall|i: int| 0 <= i < v@.len() ==> v@[i].0@ != k@,
        },
{
    let key = String::from_str(k);
    let mut i: usize = 0;
    while i < v.len()
        invariant
            i <= v@.len(),
            key@ == k@,
            forall|j: int| 0 <= j < i ==> v@[j].0@ != k@,
        decreases v@.len() - i,
    {
        if v[i].0 == key {
            return Some(i);
        }
        i = i + 1;
    }
    None
}

/// A name marks a source file when it holds `.source`.
pub open spec fn is_source_name(n: Seq<char>) -> bool {
    occurs_in(n, ".source"@)
}

/// The base name a source file stands for: its name up to the second `.`
/// from the end (`grin.source.jpeg` stands for `grin`).
pub open spec fn source_base(n: Seq<char>) -> Seq<char> {
    split_back_spec(n, '.', 2).0
}

/// The source index that a listing of file names gives: each source file
/// under its base name, a later one winning over an earlier one.
pub open spec fn source_index(names: Seq<Seq<char>>) -> Map<Seq<char>, Seq<char>>
    decreases names.len(),
{
    if names.len() == 0 {
        Map::empty()
    } else if is_source_name(names.last()) {
        source_index(names.drop_last()).insert(source_base(names.last()), names.last())
    } else {
        source_index(names.drop_last())
    }
}

/// What the caller observed since the previous step.
#[derive(Debug)]
pub enum ResolveEvent {
    /// A new request.
    Start,
    /// The names of the files in the working directory.
    Scanned(Vec<String>),
    /// Whether the transform command succeeded.
    Transformed(bool),
    /// The bytes of the produced file, or `None` when it could not be read.
    OutputRead(Option<Vec<u8>>),
}

/// What the caller is to do next.
#[derive(Debug, PartialEq, Eq)]
pub enum ResolveAction {
    /// Serve these bytes; the request is done.
    Respond(Vec<u8>),
    /// List the working directory and report the names.
    ScanSources,
    /// Run this program with these arguments and report whether it succeeded.
    RunCommand(Vec<String>),
    /// Read this file and report its bytes.
    ReadOutput(String),
    /// No source file exists for the base name; the request is done.
    NotFound,
    /// The transform failed; the request is done and nothing was cached.
    TransformFailure,
    /// The produced file could not be read; the request is done.
    ReadFailure,
}

/// A `ResolveEvent` as plain values.
pub enum EventView {
    Start,
    Scanned(Seq<Seq<char>>),
    Transformed(bool),
    OutputRead(Option<Seq<u8>>),
}

/// A `ResolveAction` as plain values.
pub enum ActionView {
    Respond(Seq<u8>),
    ScanSources,
    RunCommand(Seq<Seq<char>>),
    ReadOutput(Seq<char>),
    NotFound,
    TransformFailure,
    ReadFailure,
}

impl View for ResolveEvent {
    type V = EventView;

    open spec fn view(&self) -> EventView {
        match self {
            ResolveEvent::Start => EventView::Start,
            ResolveEvent::Scanned(names) => EventView::Scanned(arg_views(names@)),
            ResolveEvent::Transformed(ok) => EventView::Transformed(*ok),
            ResolveEvent::OutputRead(bytes) => EventView::OutputRead(
                match bytes {
                    Some(b) => Some(b@),
                    None => None,
                },
            ),
        }
    }
}

impl View for ResolveAction {
    type V = ActionView;

    open spec fn view(&self) -> ActionView {
        match self {
            ResolveAction::Respond(b) => ActionView::Respond(b@),
            ResolveAction::ScanSources => ActionView::ScanSources,
            ResolveAction::RunCommand(args) => ActionView::RunCommand(arg_views(args@)),
            ResolveAction::ReadOutput(p) => ActionView::ReadOutput(p@),
            ResolveAction::NotFound => ActionView::NotFound,
            ResolveAction::TransformFailure => ActionView::TransformFailure,
            ResolveAction::ReadFailure => ActionView::ReadFailure,
        }
    }
}

/// The cache's state: variant bytes by file name, source files by base name.
pub struct CacheView {
    pub images: Map<Seq<char>, Seq<u8>>,
    pub sources: Map<Seq<char>, Seq<char>>,
}

/// The action for a request whose source index is `c.sources`: make the
/// variant where a source exists.
pub open spec fn transform_or(c: CacheView, img: ImageView, otherwise: ActionView) -> ActionView {
    if c.sources.contains_key(img.name) {
        ActionView::RunCommand(image_args(img, c.sources[img.name]))
    } else {
        otherwise
    }
}

/// One step of resolving `img` in the cache `c` after `ev`: the next state
/// and what the caller is to do.
pub open spec fn resolve_step(c: CacheView, img: ImageView, ev: EventView) -> (CacheView, ActionView) {
    match ev {
        EventView::Start => if c.images.contains_key(img.file_name) {
            (c, ActionView::Respond(c.images[img.file_name]))
        } else {
            (c, transform_or(c, img, ActionView::ScanSources))
        },
        EventView::Scanned(names) => {
            let c2 = CacheView { images: c.images, sources: source_index(names) };
            (c2, transform_or(c2, img, ActionView::NotFound))
        },
        EventView::Transformed(ok) => (
            c,
            if ok {
                ActionView::ReadOutput(img.file_name)
            } else {
                ActionView::TransformFailure
            },
        ),
        EventView::OutputRead(None) => (c, ActionView::ReadFailure),
        EventView::OutputRead(Some(b)) => if c.images.contains_key(img.file_name) {
            (c, ActionView::Respond(c.images[img.file_name]))
        } else {
            (
                CacheView { images: c.images.insert(img.file_name, b), sources: c.sources },
                ActionView::Respond(b),
            )
        },
    }
}

/// The derived-image cache. Entries are added, never changed or removed; the
/// source index is replaced whole by each rescan.
#[derive(Debug, Clone)]
pub struct ImageCache {
    images: Vec<(String, Vec<u8>)>,
    sources: Vec<(String, String)>,
}

impl View for ImageCache {
    type V = CacheView;

    closed spec fn view(&self) -> CacheView {
        CacheView { images: map_of(self.images@), sources: map_of(self.sources@) }
    }
}

impl ImageCache {
    /// Each key stands once in each table.
    pub closed spec fn wf(&self) -> bool {
        keys_unique(self.images@) && keys_unique(self.sources@)
    }

    /// An empty cache with an empty source index.
    pub fn new() -> (r: ImageCache)
        ensures
            r.wf(),
            r@.images == Map::<Seq<char>, Seq<u8>>::empty(),
            r@.sources == Map::<Seq<char>, Seq<char>>::empty(),
    {
        ImageCache { images: Vec::new(), sources: Vec::new() }
    }

    /// Replaces the source index by the one that the file names of a
    /// directory listing give.
    pub fn update_sources(&mut self, file_names: &Vec<String>)
        requires
            old(self).wf(),
        ensures
            final(self).wf(),
            final(self)@.images == old(self)@.images,
            final(self)@.sources == source_index(arg_views(file_names@)),
    {
        let mut sources: Vec<(String, String)> = Vec::new();
        let ghost names = arg_views(file_names@);
        let mut i: usize = 0;
        while i < file_names.len()
            invariant
                i <= file_names@.len(),
                names == arg_views(file_names@),
                keys_unique(sources@),
                map_of(sources@) == source_index(names.subrange(0, i as int)),
            decreases file_names@.len() - i,
        {
            let name = file_names[i].as_str();
            assert(names.subrange(0, i + 1).drop_last() =~= names.subrange(0, i as int));
            assert(names.subrange(0, i + 1).last() == name@);
            if is_source_file(name) {
                let (base, _) = split_back(name, '.', 2);
                let entry = (String::from_str(base), String::from_str(name));
                match find_key(&sources, base) {
                    Some(j) => {
                        proof {
                            lemma_map_of_update(sources@, j as int, entry);
                        }
                        sources.set(j, entry);
                    },
                    None => {
                        proof {
                            lemma_map_of_push(sources@, entry);
                        }
                        sources.push(entry);
                    },
                }
            }
            i = i + 1;
        }
        assert(names.subrange(0, i as int) =~= names);
        self.sources = sources;
    }

    fn transform_or(&self, image: &Image, otherwise: ResolveAction) -> (r: ResolveAction)
        requires
            self.wf(),
        ensures
            r@ == transform_or(self@, image@, otherwise@),
    {
        match find_key(&self.sources, image.name()) {
            Some(j) => {
                proof {
                    lemma_map_of_value(self.sources@, j as int);
                }
                ResolveAction::RunCommand(image.get_command(self.sources[j].1.as_str()))
            },
            None => {
                proof {
                    lemma_map_of_domain(self.sources@, image@.name);
                }
                otherwise
            },
        }
    }

    fn cached(&self, image: &Image) -> (r: Option<Vec<u8>>)
        requires
            self.wf(),
        ensures
            match r {
                Some(b) => self@.images.contains_key(image@.file_name) && b@ == self@.images[image@.file_name],
                None => !self@.images.contains_key(image@.file_name),
            },
    {
        match find_key(&self.images, image.file_name()) {
            Some(i) => {
                proof {
                    lemma_map_of_value(self.images@, i as int);
                }
                Some(copy_bytes(&self.images[i].1))
            },
            None => {
                proof {
                    lemma_map_of_domain(self.images@, image@.file_name);
                }
                None
            },
        }
    }

    /// One step of resolving `image`: takes what the caller observed and
    /// returns what it is to do next. A request starts with `Start`; a hit
    /// is served at once, a miss leads to a rescan when no source is known,
    /// then to the transform, the reading of its output and its caching.
    pub fn get_image_data(&mut self, image: &Image, event: ResolveEvent) -> (r: ResolveAction)
        requires
            old(self).wf(),
        ensures
            final(self).wf(),
            (final(self)@, r@) == resolve_step(old(self)@, image@, event@),
    {
        match event {
            ResolveEvent::Start => match self.cached(image) {
                Some(b) => ResolveAction::Respond(b),
                None => self.transform_or(image, ResolveAction::ScanSources),
            },
            ResolveEvent::Scanned(names) => {
                self.update_sources(&names);
                self.transform_or(image, ResolveAction::NotFound)
            },
            ResolveEvent::Transformed(ok) => if ok {
                ResolveAction::ReadOutput(String::from_str(image.file_name()))
            } else {
                ResolveAction::TransformFailure
            },
            ResolveEvent::OutputRead(None) => ResolveAction::ReadFailure,
            ResolveEvent::OutputRead(Some(bytes)) => match self.cached(image) {
                Some(b) => ResolveAction::Respond(b),
                None => {
                    let entry = (String::from_str(image.file_name()), copy_bytes(&bytes));
                    proof {
                        lemma_map_of_domain(self.images@, image@.file_name);
                        lemma_map_of_push(self.images@, entry);
                    }
                    self.images.push(entry);
                    ResolveAction::Respond(bytes)
                },
            },
        }
    }
}

/// Tells whether a file name marks a source file.
pub fn is_source_file(name: &str) -> (r: bool)
    ensures
        r == is_source_name(name@),
{
    contains_chars(&chars_of(name), &chars_of(".source"))
}

fn copy_bytes(b: &Vec<u8>) -> (r: Vec<u8>)
    ensures
        r@ == b@,
{
    let mut out: Vec<u8> = Vec::with_capacity(b.len());
    let mut i: usize = 0;
    while i < b.len()
        invariant
            i <= b@.len(),
            out@ == b@.subrange(0, i as int),
        decreases b@.len() - i,
    {
        out.push(b[i]);
        i = i + 1;
        assert(out@ =~= b@.subrange(0, i as int));
    }
    assert(b@.subrange(0, i as int) =~= b@);
    out
}

} // verus!

verus! {

/// How many more steps an action leads to before the request is done.
pub open spec fn steps_left(a: ActionView) -> nat {
    match a {
        ActionView::ScanSources => 3,
        ActionView::RunCommand(_) => 2,
        ActionView::ReadOutput(_) => 1,
        _ => 0,
    }
}

/// The event that answers an action: what the caller reports after doing it.
pub open spec fn answers(a: ActionView, ev: EventView) -> bool {
    match a {
        ActionView::ScanSources => ev is Scanned,
        ActionView::RunCommand(_) => ev is Transformed,
        ActionView::ReadOutput(_) => ev is OutputRead,
        _ => false,
    }
}

/// Once the output of a transform has been read and cached, resolving the
/// same request again is a hit: it returns the very same bytes at once, with
/// no command to run and no change to the cache.
pub proof fn lemma_cache_idempotent(c: CacheView, img: ImageView, bytes: Seq<u8>)
    ensures
        resolve_step(c, img, EventView::OutputRead(Some(bytes))).1 is Respond,
        resolve_step(resolve_step(c, img, EventView::OutputRead(Some(bytes))).0, img, EventView::Start)
            == resolve_step(c, img, EventView::OutputRead(Some(bytes))),
{
}

/// A request that hits the cache is served from it, with nothing to run.
pub proof fn lemma_hit_runs_nothing(c: CacheView, img: ImageView)
    requires
        c.images.contains_key(img.file_name),
    ensures
        resolve_step(c, img, EventView::Start) == (c, ActionView::Respond(c.images[img.file_name])),
{
}

proof fn lemma_source_index_domain(names: Seq<Seq<char>>, k: Seq<char>)
    ensures
        source_index(names).contains_key(k) ==> exists|i: int|
            0 <= i < names.len() && is_source_name(names[i]) && source_base(names[i]) == k,
    decreases names.len(),
{
    if names.len() > 0 {
        let rest = names.drop_last();
        lemma_source_index_domain(rest, k);
        if source_index(rest).contains_key(k) {
            let i = choose|i: int|
                0 <= i < rest.len() && is_source_name(rest[i]) && source_base(rest[i]) == k;
            assert(names[i] == rest[i]);
        }
    }
}

/// Where no listed file is a source of the requested base name, the rescan
/// ends the request with `NotFound`, and nothing is cached.
pub proof fn lemma_missing_source(c: CacheView, img: ImageView, names: Seq<Seq<char>>)
    requires
        forall|i: int|
            0 <= i < names.len() ==> !(is_source_name(names[i]) && source_base(names[i])
                == img.name),
    ensures
        resolve_step(c, img, EventView::Scanned(names)).1 == ActionView::NotFound,
        resolve_step(c, img, EventView::Scanned(names)).0.images == c.images,
{
    lemma_source_index_domain(names, img.name);
}

/// Every request ends: each step answers the caller's report of the action
/// before with an action nearer the end, so a request takes at most four
/// steps, whatever the other requests do in between.
pub proof fn lemma_resolve_progress(c: CacheView, img: ImageView, before: ActionView, ev: EventView)
    requires
        answers(before, ev),
    ensures
        steps_left(resolve_step(c, img, ev).1) < steps_left(before),
{
}

/// A step for one request never changes nor removes the cached bytes of any
/// name, so requests for different images never spoil one another.
pub proof fn lemma_step_keeps_entries(c: CacheView, img: ImageView, ev: EventView, k: Seq<char>)
    requires
        c.images.contains_key(k),
    ensures
        resolve_step(c, img, ev).0.images.contains_key(k),
        resolve_step(c, img, ev).0.images[k] == c.images[k],
{
}

} // verus!
