use vstd::prelude::*;

use crate::cache::{Cache, CacheModel, MessageField};
use crate::config::Config;
use crate::message::{blob_decodes, decoded, DecodedMessage};

verus! {

/// The lifecycle of one script file during a load pass: evaluation,
/// entry-point discovery, name discovery, and the optional one-shot `init`.
pub enum LoadState {
    /// The source is about to be evaluated.
    Created,
    /// The top level evaluated; the `compare` entry point is to be looked up.
    Loaded,
    /// A callable `compare` exists; the `PACKET_NAME` constant is to be read.
    HasCompare,
    /// The declared routing name is known; the optional `init` is to be run.
    Named(String),
    /// Accepted: the unit joins the roster under its declared name.
    Ready(String),
    /// Hard load failure for this file: it is skipped with a warning.
    Errored,
    /// No comparer produced: the file is skipped without a warning.
    Rejected,
}

/// One observation the embedder makes of the sandbox while loading a script.
pub enum LoadEvent {
    /// Whether top-level evaluation succeeded.
    Evaluated(bool),
    /// Whether a callable `compare` is present in the evaluated context.
    CompareFound(bool),
    /// The `PACKET_NAME` text constant, if present as text.
    NameFound(Option<String>),
    /// Whether the optional `init` ran without error; also `true` when the
    /// script has no `init` at all.
    InitOk(bool),
}

impl LoadState {
    /// The transition relation of the loading lifecycle. An observation that
    /// does not belong to the current state changes nothing; the three
    /// terminal states never change.
    pub open spec fn next_spec(self, event: LoadEvent) -> LoadState {
        match (self, event) {
            (LoadState::Created, LoadEvent::Evaluated(ok)) => if ok {
                LoadState::Loaded
            } else {
                LoadState::Errored
            },
            (LoadState::Loaded, LoadEvent::CompareFound(found)) => if found {
                LoadState::HasCompare
            } else {
                LoadState::Rejected
            },
            (LoadState::HasCompare, LoadEvent::NameFound(name)) => match name {
                Some(n) => LoadState::Named(n),
                None => LoadState::Errored,
            },
            (LoadState::Named(n), LoadEvent::InitOk(ok)) => if ok {
                LoadState::Ready(n)
            } else {
                LoadState::Errored
            },
            (s, _) => s,
        }
    }

    /// Advances the lifecycle by one observation of the sandbox.
    pub fn next(self, event: LoadEvent) -> (r: LoadState)
        ensures
            r == self.next_spec(event),
    {
        match (self, event) {
            (LoadState::Created, LoadEvent::Evaluated(ok)) => if ok {
                LoadState::Loaded
            } else {
                LoadState::Errored
            },
            (LoadState::Loaded, LoadEvent::CompareFound(found)) => if found {
                LoadState::HasCompare
            } else {
                LoadState::Rejected
            },
            (LoadState::HasCompare, LoadEvent::NameFound(name)) => match name {
                Some(n) => LoadState::Named(n),
                None => LoadState::Errored,
            },
            (LoadState::Named(n), LoadEvent::InitOk(ok)) => if ok {
                LoadState::Ready(n)
            } else {
                LoadState::Errored
            },
            (s, _) => s,
        }
    }

    /// The outcome of the load pass for this file, once a terminal state is
    /// reached; `None` while loading is still under way.
    pub fn into_outcome(self) -> (r: Option<LoadOutcome>)
        ensures
            match self {
                LoadState::Ready(name) => r == Some(LoadOutcome::Ready(name)),
                LoadState::Errored => r == Some(LoadOutcome::Errored),
                LoadState::Rejected => r == Some(LoadOutcome::Rejected),
                _ => r is None,
            },
    {
        match self {
            LoadState::Ready(name) => Some(LoadOutcome::Ready(name)),
            LoadState::Errored => Some(LoadOutcome::Errored),
            LoadState::Rejected => Some(LoadOutcome::Rejected),
            _ => None,
        }
    }
}

/// How the load pass ended for one script file.
pub enum LoadOutcome {
    /// A hard load failure for this one file: logged as a warning, skipped.
    Errored,
    /// The script produced no comparer (no `compare` entry point): skipped
    /// silently.
    Rejected,
    /// A comparer was produced with its declared routing name.
    Ready(String),
}

/// Why one feed call was aborted with no comparer invoked.
#[derive(Clone, Copy, Debug, PartialEq, Eq, Structural)]
pub enum FeedError {
    /// The body blob does not satisfy the decoder's format.
    Body,
    /// The header blob does not satisfy the decoder's format.
    Header,
}

/// The mathematical model of a matcher: its configuration, the knowledge
/// cache it owns, and the declared names of its roster, in load order.
#[verifier::ext_equal]
pub ghost struct MatcherModel {
    pub config: crate::config::ConfigModel,
    pub cache: CacheModel,
    pub roster: Seq<Seq<char>>,
}

impl MatcherModel {
    /// The matcher after one load outcome is applied, paired with whether a
    /// warning is due: a `Ready` unit joins the roster in order, an `Errored`
    /// one warns, a `Rejected` one passes silently.
    pub open spec fn enrolled(self, outcome: LoadOutcome) -> (MatcherModel, bool) {
        match outcome {
            LoadOutcome::Ready(name) => (
                MatcherModel {
                    config: self.config,
                    cache: self.cache,
                    roster: self.roster.push(name@),
                },
                false,
            ),
            LoadOutcome::Errored => (self, true),
            LoadOutcome::Rejected => (self, false),
        }
    }

    /// The identity filter of one dispatch: a comparer is passed over exactly
    /// when the cache already binds its declared name to a different id.
    pub open spec fn dispatches(self, name: Seq<char>, id: u16) -> bool {
        !self.cache.name_map().dom().contains(name) || self.cache.name_map()[name] == id
    }
}

/// A matcher owns the shared knowledge cache and an ordered roster of
/// comparers, loaded once; it decides, per packet, which comparers run.
///
/// The sandboxed execution contexts themselves live with the embedder,
/// index-aligned with the roster: they are thread-bound and outside what the
/// engine can own here.
#[derive(Debug)]
pub struct Matcher {
    /// The configuration this matcher was initialized with.
    pub config: Config,
    cache: Cache,
    roster: Vec<String>,
}

impl View for Matcher {
    type V = MatcherModel;

    closed spec fn view(&self) -> MatcherModel {
        MatcherModel {
            config: self.config@,
            cache: self.cache@,
            roster: self.roster@.map(|i: int, s: String| s@),
        }
    }
}

impl Matcher {
    /// Structural validity: the owned cache is valid.
    pub closed spec fn wf(self) -> bool {
        self.cache.wf()
    }

    /// Creates a new matcher instance: the default configuration, an empty
    /// cache, and an empty roster.
    pub fn new() -> (r: Matcher)
        ensures
            r.wf(),
            r@.config == crate::config::default_config(),
            r@.roster == Seq::<Seq<char>>::empty(),
            r@.cache.names == Seq::<Seq<char>>::empty(),
            r@.cache.ids == Seq::<u16>::empty(),
            r@.cache.messages == Map::<Seq<char>, Seq<crate::cache::FieldModel>>::empty(),
    {
        let r = Matcher { config: Config::default(), cache: Cache::new(), roster: Vec::new() };
        proof {
            assert(r@.roster =~= Seq::<Seq<char>>::empty());
        }
        r
    }

    /// The shared knowledge this matcher has accumulated.
    pub fn knowledge(&self) -> (c: &Cache)
        ensures
            c@ == self@.cache,
            self.wf() ==> c.wf(),
    {
        &self.cache
    }

    /// Records one guess from a script into the shared cache.
    pub fn identify(&mut self, message_name: String, packet_id: u16, field: MessageField)
        requires
            old(self).wf(),
        ensures
            final(self).wf(),
            final(self)@.cache == old(self)@.cache.updated(message_name@, packet_id, field@),
            final(self)@.roster == old(self)@.roster,
            final(self)@.config == old(self)@.config,
    {
        self.cache.update(message_name, packet_id, field);
    }

    /// Applies one load outcome to the roster and says whether a warning is
    /// due, as the model's `enrolled` describes.
    pub fn enroll(&mut self, outcome: LoadOutcome) -> (warn: bool)
        requires
            old(self).wf(),
        ensures
            final(self).wf(),
            (final(self)@, warn) == old(self)@.enrolled(outcome),
    {
        let ghost pre = self@;
        match outcome {
            LoadOutcome::Ready(name) => {
                let ghost n = name@;
                self.roster.push(name);
                proof {
                    assert(self@.roster =~= pre.roster.push(n));
                    assert(self@ =~~= pre.enrolled(LoadOutcome::Ready(
                        self.roster[self.roster@.len() - 1],
                    )).0);
                }
                false
            },
            LoadOutcome::Errored => true,
            LoadOutcome::Rejected => false,
        }
    }

    /// The number of comparers in the roster.
    pub fn roster_len(&self) -> (n: usize)
        ensures
            n == self@.roster.len(),
    {
        self.roster.len()
    }

    /// The declared name of the comparer at the given roster position.
    pub fn roster_name(&self, index: usize) -> (name: &String)
        requires
            index < self@.roster.len(),
        ensures
            name@ == self@.roster[index as int],
    {
        &self.roster[index]
    }

    /// The identity filter of one dispatch: whether the comparer at the given
    /// roster position runs for a packet with this id. Once the cache binds
    /// the comparer's declared name to an id, routing narrows to that id
    /// only.
    pub fn eligible(&self, index: usize, id: u16) -> (r: bool)
        requires
            self.wf(),
            index < self@.roster.len(),
        ensures
            r == self@.dispatches(self@.roster[index as int], id),
    {
        match self.cache.name_map_get(self.roster[index].as_str()) {
            Some(known) => known == id,
            None => true,
        }
    }

    /// Decodes the two blobs of one feed call: the body first, then the
    /// header. Either decode failure aborts the whole call before any
    /// comparer runs; on success the pair is (header, body).
    pub fn prepare_feed(&self, header: &[u8], data: &[u8]) -> (r: Result<
        (DecodedMessage, DecodedMessage),
        FeedError,
    >)
        ensures
            match r {
                Ok(p) => blob_decodes(header@) && decoded(header@) == Some(p.0@) && blob_decodes(
                    data@,
                ) && decoded(data@) == Some(p.1@),
                Err(e) => (e == FeedError::Body && !blob_decodes(data@)) || (e
                    == FeedError::Header && blob_decodes(data@) && !blob_decodes(header@)),
            },
            r is Ok <==> (blob_decodes(header@) && blob_decodes(data@)),
    {
        let body = match crate::message::decode(data) {
            Some(m) => m,
            None => {
                return Err(FeedError::Body);
            },
        };
        let head = match crate::message::decode(header) {
            Some(m) => m,
            None => {
                return Err(FeedError::Header);
            },
        };
        Ok((head, body))
    }
}

/// Whether a directory entry's final name component names a matcher script:
/// it must carry exactly the extension `js`, so a final `.js` that does not
/// begin the name.
pub open spec fn is_script_name(name: Seq<char>) -> bool {
    &&& name.len() >= 4
    &&& name[name.len() - 3] == '.'
    &&& name[name.len() - 2] == 'j'
    &&& name[name.len() - 1] == 's'
}

/// Decides whether a directory entry is a matcher script by its final name
/// component. Entries with any other name are skipped by the load pass.
pub fn is_script_file(name: &str) -> (r: bool)
    ensures
        r == is_script_name(name@),
{
    let n = name.unicode_len();
    if n < 4 {
        return false;
    }
    name.get_char(n - 3) == '.' && name.get_char(n - 2) == 'j' && name.get_char(n - 1) == 's'
}

/// Law: a script whose top level evaluates but which lacks a `compare` entry
/// point ends `Rejected`, a terminal state; applying that outcome to any
/// matcher leaves every roster unchanged and raises no warning.
pub proof fn lemma_no_compare_never_rostered(m: MatcherModel)
    ensures
        LoadState::Created.next_spec(LoadEvent::Evaluated(true)).next_spec(
            LoadEvent::CompareFound(false),
        ) == LoadState::Rejected,
        forall|e: LoadEvent| #[trigger]
            LoadState::Rejected.next_spec(e) == LoadState::Rejected,
        m.enrolled(LoadOutcome::Rejected).0 == m,
        m.enrolled(LoadOutcome::Rejected).1 == false,
{
}

/// Law: a script whose top level fails to evaluate ends `Errored`, a terminal
/// state; applying that outcome warns and leaves the roster unchanged, and a
/// valid script processed afterwards still joins the roster.
pub proof fn lemma_errored_warns_and_spares_siblings(m: MatcherModel, good: LoadOutcome)
    requires
        good is Ready,
    ensures
        LoadState::Created.next_spec(LoadEvent::Evaluated(false)) == LoadState::Errored,
        forall|e: LoadEvent| #[trigger]
            LoadState::Errored.next_spec(e) == LoadState::Errored,
        m.enrolled(LoadOutcome::Errored).0 == m,
        m.enrolled(LoadOutcome::Errored).1 == true,
        m.enrolled(LoadOutcome::Errored).0.enrolled(good).0.roster == m.roster.push(
            good->Ready_0@,
        ),
{
}

/// Law: once a fresh name/id pair is recorded, the cache binds the name to
/// that id, so a feed with the bound id dispatches the comparer of that name
/// and a feed with any other id skips it.
pub proof fn lemma_routing_narrows(
    config: crate::config::ConfigModel,
    c: CacheModel,
    roster: Seq<Seq<char>>,
    name: Seq<char>,
    id: u16,
    field: crate::cache::FieldModel,
    other: u16,
)
    requires
        c.wf(),
        !c.ids.contains(id),
    ensures
        ({
            let m2 = MatcherModel { config, cache: c.updated(name, id, field), roster };
            &&& m2.dispatches(name, id)
            &&& other != id ==> !m2.dispatches(name, other)
        }),
{
    let c2 = c.updated(name, id, field);
    assert(c2.names == c.names.push(name));
    assert(c2.ids == c.ids.push(id));
    assert(c2.names.len() == c2.ids.len());
    assert(c2.names[c2.names.len() - 1] == name);
    crate::cache::lemma_name_map_index(c2.names, c2.ids, c2.names.len() - 1);
}

} // verus!
