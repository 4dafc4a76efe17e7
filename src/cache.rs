//! The one-time initializer of the catalog, as a state machine: the caller
//! performs each action it returns and hands back what came of it.
use crate::catalog::{catalog_of, parse_beatstar, Database};
use crate::model::RawSong;
use vstd::prelude::*;

verus! {

/// The status of a successful response.
pub const HTTP_OK: u16 = 200;

/// Why the catalog could not be loaded.
#[derive(Debug)]
pub enum FetchFailure {
    /// The server answered with a status other than success (`status` holds
    /// it), or the transport failed before any answer (`status` is `None`).
    TransportFailure { status: Option<u16>, body: String },
    /// The payload is not a catalog document.
    DecodeFailure { detail: String },
}

/// What the caller reports to the cache.
#[derive(Debug)]
pub enum Event {
    /// A caller wants the catalog.
    Requested,
    /// The server answered.
    Responded { status: u16, body: String },
    /// The transport failed before any answer.
    Unreachable { detail: String },
    /// The payload decoded into these records.
    Decoded { songs: Vec<RawSong> },
    /// The payload could not be decoded.
    Undecodable { detail: String },
}

/// What the cache asks the caller to do next.
#[derive(Debug)]
pub enum Action {
    /// Perform the one request for the catalog.
    Fetch,
    /// Another caller is loading the catalog: wait for it, then ask again.
    Wait,
    /// Decode this payload into records.
    Decode { body: String },
    /// The catalog is ready: read it.
    Serve,
    /// Loading failed; nothing was kept, and a later request starts over.
    Fail { failure: FetchFailure },
}

#[derive(Debug)]
pub enum CacheState {
    Empty,
    Initializing,
    Ready { db: Database },
}

/// Holds at most one catalog, loaded at most once.
#[derive(Debug)]
pub struct Cache {
    pub state: CacheState,
}

/// The state of a cache, without its catalog.
pub enum Phase {
    Empty,
    Initializing,
    Ready,
}

/// An event that ends a load without a catalog.
pub open spec fn is_failure(e: Event) -> bool {
    match e {
        Event::Responded { status, .. } => status != HTTP_OK,
        Event::Unreachable { .. } => true,
        Event::Undecodable { .. } => true,
        _ => false,
    }
}

/// Whether `e` in phase `p` makes the cache ask for the request.
pub open spec fn issues_fetch(p: Phase, e: Event) -> bool {
    p is Empty && e is Requested
}

/// The phase after `e` in phase `p`. Only a request counts outside a load;
/// the outcome of a load counts only during one.
pub open spec fn phase_after(p: Phase, e: Event) -> Phase {
    match p {
        Phase::Empty => if e is Requested {
            Phase::Initializing
        } else {
            Phase::Empty
        },
        Phase::Initializing => if is_failure(e) {
            Phase::Empty
        } else if e is Decoded {
            Phase::Ready
        } else {
            Phase::Initializing
        },
        Phase::Ready => Phase::Ready,
    }
}

/// How many requests for the catalog `es` makes the cache ask for, from `p`.
pub open spec fn fetch_count(p: Phase, es: Seq<Event>) -> nat
    decreases es.len(),
{
    if es.len() == 0 {
        0
    } else {
        (if issues_fetch(p, es[0]) {
            1nat
        } else {
            0nat
        }) + fetch_count(phase_after(p, es[0]), es.subrange(1, es.len() as int))
    }
}

/// The phase that `es` leads to from `p`.
pub open spec fn phase_after_all(p: Phase, es: Seq<Event>) -> Phase
    decreases es.len(),
{
    if es.len() == 0 {
        p
    } else {
        phase_after_all(phase_after(p, es[0]), es.subrange(1, es.len() as int))
    }
}

impl Cache {
    pub open spec fn phase(&self) -> Phase {
        match self.state {
            CacheState::Empty => Phase::Empty,
            CacheState::Initializing => Phase::Initializing,
            CacheState::Ready { .. } => Phase::Ready,
        }
    }

    /// A ready cache holds a well-formed catalog.
    pub open spec fn wf(&self) -> bool {
        self.state matches CacheState::Ready { db } ==> db.wf()
    }

    /// An empty cache.
    pub fn new() -> (r: Cache)
        ensures
            r.state is Empty,
            r.wf(),
    {
        Cache { state: CacheState::Empty }
    }

    /// The catalog, once it is ready.
    pub fn database(&self) -> (r: Option<&Database>)
        ensures
            match self.state {
                CacheState::Ready { db } => r == Some(&db),
                _ => r is None,
            },
    {
        match &self.state {
            CacheState::Ready { db } => Some(db),
            _ => None,
        }
    }

    /// Takes one event and returns what the caller must do next.
    ///
    /// A request on an empty cache claims the load and asks for the fetch;
    /// a request during a load asks the caller to wait; a request on a ready
    /// cache serves the catalog, which is never replaced. A successful
    /// response asks for its payload to be decoded, and the decoded records
    /// become the catalog. Any failure empties the cache and is handed to the
    /// caller.
    pub fn step(&mut self, event: Event) -> (a: Action)
        requires
            old(self).wf(),
            event is Requested || old(self).state is Initializing,
        ensures
            final(self).wf(),
            final(self).phase() == phase_after(old(self).phase(), event),
            (a is Fetch) == issues_fetch(old(self).phase(), event),
            old(self).state is Ready ==> *final(self) == *old(self) && a is Serve,
            match event {
                Event::Requested => match old(self).state {
                    CacheState::Empty => a is Fetch,
                    CacheState::Initializing => a is Wait,
                    CacheState::Ready { .. } => a is Serve,
                },
                Event::Responded { status, body } => if status == HTTP_OK {
                    a == (Action::Decode { body })
                } else {
                    a == (Action::Fail {
                        failure: FetchFailure::TransportFailure { status: Some(status), body },
                    })
                },
                Event::Unreachable { detail } => a == (Action::Fail {
                    failure: FetchFailure::TransportFailure { status: None, body: detail },
                }),
                Event::Decoded { songs } => a is Serve && match final(self).state {
                    CacheState::Ready { db } => db@ == catalog_of(songs@),
                    _ => false,
                },
                Event::Undecodable { detail } => a == (Action::Fail {
                    failure: FetchFailure::DecodeFailure { detail },
                }),
            },
    {
        match event {
            Event::Requested => match self.state {
                CacheState::Empty => {
                    self.state = CacheState::Initializing;
                    Action::Fetch
                },
                CacheState::Initializing => Action::Wait,
                CacheState::Ready { .. } => Action::Serve,
            },
            Event::Responded { status, body } => {
                if status == HTTP_OK {
                    Action::Decode { body }
                } else {
                    self.state = CacheState::Empty;
                    Action::Fail {
                        failure: FetchFailure::TransportFailure { status: Some(status), body },
                    }
                }
            },
            Event::Unreachable { detail } => {
                self.state = CacheState::Empty;
                Action::Fail { failure: FetchFailure::TransportFailure { status: None, body: detail } }
            },
            Event::Decoded { songs } => {
                let db = parse_beatstar(songs.as_slice());
                self.state = CacheState::Ready { db };
                Action::Serve
            },
            Event::Undecodable { detail } => {
                self.state = CacheState::Empty;
                Action::Fail { failure: FetchFailure::DecodeFailure { detail } }
            },
        }
    }
}

/// Whatever the callers report, as long as no load fails, the cache asks
/// for the catalog at most once; once it has been asked for, it is never
/// asked for again.
pub proof fn lemma_fetch_at_most_once(p: Phase, es: Seq<Event>)
    requires
        forall|i: int| 0 <= i < es.len() ==> !is_failure(#[trigger] es[i]),
    ensures
        fetch_count(p, es) <= (if p is Empty {
            1nat
        } else {
            0nat
        }),
    decreases es.len(),
{
    if es.len() > 0 {
        let rest = es.subrange(1, es.len() as int);
        assert forall|i: int| 0 <= i < rest.len() implies !is_failure(#[trigger] rest[i]) by {
            assert(rest[i] == es[i + 1]);
        }
        assert(!is_failure(es[0]));
        lemma_fetch_at_most_once(phase_after(p, es[0]), rest);
    }
}

/// A ready cache stays ready, whatever the callers report.
pub proof fn lemma_ready_is_final(es: Seq<Event>)
    ensures
        phase_after_all(Phase::Ready, es) == Phase::Ready,
        fetch_count(Phase::Ready, es) == 0,
    decreases es.len(),
{
    if es.len() > 0 {
        lemma_ready_is_final(es.subrange(1, es.len() as int));
    }
}

/// A failed load leaves nothing behind: the next request asks for the
/// catalog again.
pub proof fn lemma_failure_does_not_poison(e: Event)
    requires
        is_failure(e),
    ensures
        phase_after(Phase::Initializing, e) == Phase::Empty,
        issues_fetch(phase_after(Phase::Initializing, e), Event::Requested),
{
}

} // verus!
