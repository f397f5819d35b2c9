//! The socket-update watcher: reports, at most once, that the discovery
//! engine learnt its own network address.
//!
//! The watcher is armed once. It reads the engine's events until one of them
//! announces a changed address or the feed ends, puts that single result into
//! its slot and never arms again: whatever the feed brings later is dropped.
//! The result leaves the slot once.

use vstd::prelude::*;

verus! {

/// An event of the discovery engine, as far as the watcher tells them apart.
pub enum EngineEvent<A> {
    /// The engine learnt that its own address is now `address`.
    AddressChanged { address: A },
    /// Any other event.
    Other,
}

/// The single result of a watcher.
pub enum Observation<A> {
    /// The engine learnt this address.
    Address { address: A },
    /// The feed ended before the engine announced an address.
    FeedClosed,
}

/// The state of a watcher, as contracts see it.
pub struct WatcherState<A> {
    /// Whether the watcher still reads the feed.
    pub armed: bool,
    /// The result, from the moment the watcher fired until it is taken.
    pub slot: Option<Observation<A>>,
}

/// The result of watching a feed to its end: the address of the first event
/// that announces one, or the report that the feed closed without any.
pub open spec fn observation_of<A>(feed: Seq<EngineEvent<A>>) -> Observation<A>
    decreases feed.len(),
{
    if feed.len() == 0 {
        Observation::FeedClosed
    } else {
        match feed[0] {
            EngineEvent::AddressChanged { address } => Observation::Address { address },
            EngineEvent::Other => observation_of(feed.skip(1)),
        }
    }
}

/// The state of a watcher that has just been armed.
pub open spec fn armed<A>() -> WatcherState<A> {
    WatcherState { armed: true, slot: None }
}

/// The state after an event of the feed: an armed watcher fires on an address
/// change and reads on otherwise; a watcher that has fired drops the event.
pub open spec fn after_event<A>(s: WatcherState<A>, e: EngineEvent<A>) -> WatcherState<A> {
    match e {
        EngineEvent::AddressChanged { address } if s.armed => WatcherState {
            armed: false,
            slot: Some(Observation::Address { address }),
        },
        _ => s,
    }
}

/// The state after the feed ended: an armed watcher fires with the report
/// that the feed closed; a watcher that has fired stays as it is.
pub open spec fn after_close<A>(s: WatcherState<A>) -> WatcherState<A> {
    if s.armed {
        WatcherState { armed: false, slot: Some(Observation::FeedClosed) }
    } else {
        s
    }
}

/// The state after all events of `feed`, in order.
pub open spec fn after_events<A>(s: WatcherState<A>, feed: Seq<EngineEvent<A>>) -> WatcherState<A>
    decreases feed.len(),
{
    if feed.len() == 0 {
        s
    } else {
        after_events(after_event(s, feed[0]), feed.skip(1))
    }
}

impl<A> WatcherState<A> {
    /// The states a watcher can be in: its slot is empty while it is armed.
    pub open spec fn wf(self) -> bool {
        self.armed ==> self.slot is None
    }
}

/// A watcher fires at most once: after it has fired no event and no end of
/// the feed changes its state.
pub proof fn lemma_fires_once<A>(s: WatcherState<A>, feed: Seq<EngineEvent<A>>)
    requires
        !s.armed,
    ensures
        after_events(s, feed) == s,
        after_close(after_events(s, feed)) == s,
    decreases feed.len(),
{
    if feed.len() > 0 {
        lemma_fires_once(after_event(s, feed[0]), feed.skip(1));
    }
}

/// A watcher that reads a feed to its end holds exactly one result: the
/// first address the feed announced, or the report that it closed.
pub proof fn lemma_watch_result<A>(feed: Seq<EngineEvent<A>>)
    ensures
        after_close(after_events(armed(), feed)) == (WatcherState {
            armed: false,
            slot: Some(observation_of(feed)),
        }),
    decreases feed.len(),
{
    if feed.len() > 0 {
        match feed[0] {
            EngineEvent::AddressChanged { address } => {
                lemma_fires_once(after_event(armed(), feed[0]), feed.skip(1));
            },
            EngineEvent::Other => {
                lemma_watch_result(feed.skip(1));
            },
        }
    }
}

/// A watcher stops reading with the first address change: whatever follows
/// it on the feed has no part in the result.
pub proof fn lemma_later_events_dropped<A>(
    head: Seq<EngineEvent<A>>,
    address: A,
    tail: Seq<EngineEvent<A>>,
)
    requires
        forall|i: int| 0 <= i < head.len() ==> head[i] is Other,
    ensures
        observation_of(head + seq![EngineEvent::AddressChanged { address }] + tail) == (
        Observation::Address { address }),
    decreases head.len(),
{
    let feed = head + seq![EngineEvent::AddressChanged { address }] + tail;
    if head.len() == 0 {
        assert(feed[0] == EngineEvent::AddressChanged { address });
    } else {
        assert(feed[0] == head[0]);
        assert(feed.skip(1) == head.skip(1) + seq![EngineEvent::AddressChanged { address }] + tail);
        lemma_later_events_dropped(head.skip(1), address, tail);
    }
}

/// The watcher of one process: armed once, fires once, read once.
pub struct Watcher<A> {
    armed: bool,
    slot: Option<Observation<A>>,
}

impl<A> View for Watcher<A> {
    type V = WatcherState<A>;

    closed spec fn view(&self) -> WatcherState<A> {
        WatcherState { armed: self.armed, slot: self.slot }
    }
}

impl<A> Watcher<A> {
    #[verifier::type_invariant]
    spec fn valid(self) -> bool {
        self@.wf()
    }

    /// Arms a watcher.
    pub fn new() -> (w: Self)
        ensures
            w@ == armed::<A>(),
            w@.wf(),
    {
        Watcher { armed: true, slot: None }
    }

    /// Whether the watcher still wants events: true until it fires.
    pub fn is_armed(&self) -> (b: bool)
        ensures
            b == self@.armed,
    {
        self.armed
    }

    /// Takes in one event of the feed.
    pub fn on_event(&mut self, event: EngineEvent<A>)
        ensures
            final(self)@ == after_event(old(self)@, event),
            final(self)@.wf(),
    {
        proof {
            use_type_invariant(&*self);
        }
        if self.armed {
            match event {
                EngineEvent::AddressChanged { address } => {
                    *self = Watcher { armed: false, slot: Some(Observation::Address { address }) };
                },
                EngineEvent::Other => {},
            }
        }
    }

    /// Takes in that the feed ended.
    pub fn on_feed_closed(&mut self)
        ensures
            final(self)@ == after_close(old(self)@),
            final(self)@.wf(),
    {
        proof {
            use_type_invariant(&*self);
        }
        if self.armed {
            *self = Watcher { armed: false, slot: Some(Observation::FeedClosed) };
        }
    }

    /// Hands out the result. It is there from the moment the watcher fired,
    /// and it is handed out once: every later call finds the slot empty.
    pub fn take(&mut self) -> (result: Option<Observation<A>>)
        ensures
            result == old(self)@.slot,
            final(self)@ == (WatcherState::<A> { armed: old(self)@.armed, slot: None }),
            final(self)@.wf(),
    {
        let mut emptied = Watcher { armed: self.armed, slot: None };
        std::mem::swap(self, &mut emptied);
        emptied.slot
    }
}

} // verus!
