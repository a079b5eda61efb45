//! Events and the log of their kinds.
use vstd::prelude::*;
use vstd::string::StringExecFns;

verus! {

/// Something notable that a poll or a blocking call produced.
///
/// `C` is the connection handle that an accepted peer is handed out as, and
/// `T` the message type.
pub enum Event<T, C> {
    /// A peer connected to a listener.
    ConnectionAccepted(C),
    /// A message went out.
    MessageSent,
    /// A message came in.
    MessageReceived(T),
}

/// The kind of an event, without its payload: what the log keeps.
#[derive(Debug, Clone, Copy, PartialEq, Eq, Structural)]
pub enum EventKind {
    ConnectionAccepted,
    MessageSent,
    MessageReceived,
}

/// The kind of `e`.
pub open spec fn kind_of<T, C>(e: Event<T, C>) -> EventKind {
    match e {
        Event::ConnectionAccepted(_) => EventKind::ConnectionAccepted,
        Event::MessageSent => EventKind::MessageSent,
        Event::MessageReceived(_) => EventKind::MessageReceived,
    }
}

/// The text tag of an event kind.
pub open spec fn tag_of(k: EventKind) -> Seq<char> {
    match k {
        EventKind::ConnectionAccepted => "ConnectionAccepted"@,
        EventKind::MessageSent => "MessageSent"@,
        EventKind::MessageReceived => "MessageReceived"@,
    }
}

impl<T, C> Event<T, C> {
    /// The kind of this event.
    pub fn kind(&self) -> (r: EventKind)
        ensures
            r == kind_of(*self),
    {
        match self {
            Event::ConnectionAccepted(_) => EventKind::ConnectionAccepted,
            Event::MessageSent => EventKind::MessageSent,
            Event::MessageReceived(_) => EventKind::MessageReceived,
        }
    }
}

impl EventKind {
    /// The text tag of this kind.
    pub fn tag(&self) -> (r: String)
        ensures
            r@ == tag_of(*self),
    {
        match self {
            EventKind::ConnectionAccepted => String::from_str("ConnectionAccepted"),
            EventKind::MessageSent => String::from_str("MessageSent"),
            EventKind::MessageReceived => String::from_str("MessageReceived"),
        }
    }
}

/// An append-only log of the kinds of events, in the order they happened.
pub struct EventHandler {
    events: Vec<EventKind>,
}

impl View for EventHandler {
    type V = Seq<EventKind>;

    closed spec fn view(&self) -> Seq<EventKind> {
        self.events@
    }
}

impl Default for EventHandler {
    fn default() -> (r: Self)
        ensures
            r@ == Seq::<EventKind>::empty(),
    {
        Self::new()
    }
}

impl EventHandler {
    /// An empty log.
    pub fn new() -> (r: Self)
        ensures
            r@ == Seq::<EventKind>::empty(),
    {
        EventHandler { events: Vec::new() }
    }

    /// Records one event: its kind is appended, and nothing else changes.
    pub fn notify<T, C>(&mut self, event: Event<T, C>)
        ensures
            final(self)@ == old(self)@.push(kind_of(event)),
    {
        let k = event.kind();
        self.events.push(k);
    }

    /// Number of events recorded.
    pub fn len(&self) -> (r: usize)
        ensures
            r == self@.len(),
    {
        self.events.len()
    }

    /// The tags of the recorded events, oldest first.
    pub fn get_events(&self) -> (r: Vec<String>)
        ensures
            r@.len() == self@.len(),
            forall|i: int| 0 <= i < r@.len() ==> #[trigger] r@[i]@ == tag_of(self@[i]),
    {
        let mut out: Vec<String> = Vec::new();
        let mut i: usize = 0;
        while i < self.events.len()
            invariant
                i <= self@.len(),
                out@.len() == i,
                forall|j: int| 0 <= j < i ==> #[trigger] out@[j]@ == tag_of(self@[j]),
            decreases self@.len() - i,
        {
            out.push(self.events[i].tag());
            i = i + 1;
        }
        out
    }
}

} // verus!
