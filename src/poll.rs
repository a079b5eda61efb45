//! The non-blocking poll cycle.
//!
//! A poll switches the transport to non-blocking mode, makes one probe (a frame
//! receive or an accept), and switches it back to blocking mode before it hands
//! its result to the caller: on success, on "no event" and on failure alike.
//! The decisions stand here as a state machine; the driver performs each action
//! it asks for and feeds back what came of it.
use vstd::prelude::*;

verus! {

/// What one non-blocking probe of the transport gave.
pub enum Probe<T, E> {
    /// A unit of work was there: a message, or an incoming connection.
    Ready(T),
    /// Nothing was pending.
    WouldBlock,
    /// The probe failed.
    Failed(E),
}

/// Where a poll cycle stands.
pub enum PollPhase<T, E> {
    /// The transport is in blocking mode and no cycle is under way.
    Idle,
    /// Non-blocking mode was asked for.
    Entering,
    /// The transport is in non-blocking mode and one probe was asked for.
    Probing,
    /// Blocking mode was asked back; the cycle's result waits for it.
    Restoring(Result<Option<T>, E>),
}

/// What the driver reports back.
pub enum PollInput<T, E> {
    /// The caller asks for one poll.
    Start,
    /// The outcome of a change of blocking mode.
    ModeSet(Result<(), E>),
    /// The outcome of the probe.
    Probed(Probe<T, E>),
}

/// What the driver is to do next.
pub enum PollAction<T, E> {
    /// Switch the transport to non-blocking mode.
    SetNonBlocking,
    /// Make one non-blocking probe.
    Probe,
    /// Switch the transport back to blocking mode.
    SetBlocking,
    /// Hand this result to the caller: an event, no event, or an error.
    Yield(Result<Option<T>, E>),
}

/// Whether the machine in `phase` can take `input`: a poll starts only when
/// idle, and each later input answers the action that was asked for.
pub open spec fn accepts<T, E>(phase: PollPhase<T, E>, input: PollInput<T, E>) -> bool {
    match (phase, input) {
        (PollPhase::Idle, PollInput::Start) => true,
        (PollPhase::Entering, PollInput::ModeSet(_)) => true,
        (PollPhase::Probing, PollInput::Probed(_)) => true,
        (PollPhase::Restoring(_), PollInput::ModeSet(_)) => true,
        _ => false,
    }
}

/// The result that a probe outcome stands for.
pub open spec fn probe_result<T, E>(p: Probe<T, E>) -> Result<Option<T>, E> {
    match p {
        Probe::Ready(v) => Ok(Some(v)),
        Probe::WouldBlock => Ok(None),
        Probe::Failed(e) => Err(e),
    }
}

/// One step of the poll cycle: the next phase and the action asked for.
pub open spec fn poll_step<T, E>(phase: PollPhase<T, E>, input: PollInput<T, E>) -> (
    PollPhase<T, E>,
    PollAction<T, E>,
)
    recommends
        accepts(phase, input),
{
    match (phase, input) {
        (PollPhase::Idle, PollInput::Start) => (PollPhase::Entering, PollAction::SetNonBlocking),
        (PollPhase::Entering, PollInput::ModeSet(Ok(_))) => (PollPhase::Probing, PollAction::Probe),
        (PollPhase::Entering, PollInput::ModeSet(Err(e))) => (
            PollPhase::Idle,
            PollAction::Yield(Err(e)),
        ),
        (PollPhase::Probing, PollInput::Probed(p)) => (
            PollPhase::Restoring(probe_result(p)),
            PollAction::SetBlocking,
        ),
        (PollPhase::Restoring(res), PollInput::ModeSet(Ok(_))) => (
            PollPhase::Idle,
            PollAction::Yield(res),
        ),
        (PollPhase::Restoring(_), PollInput::ModeSet(Err(e))) => (
            PollPhase::Idle,
            PollAction::Yield(Err(e)),
        ),
        _ => (phase, PollAction::SetBlocking),
    }
}

/// The phases and actions of a run of inputs from `phase`.
pub open spec fn poll_run<T, E>(phase: PollPhase<T, E>, inputs: Seq<PollInput<T, E>>) -> (
    PollPhase<T, E>,
    Seq<PollAction<T, E>>,
)
    decreases inputs.len(),
{
    if inputs.len() == 0 {
        (phase, Seq::empty())
    } else {
        let (next, act) = poll_step(phase, inputs[0]);
        let (last, acts) = poll_run(next, inputs.drop_first());
        (last, seq![act] + acts)
    }
}

/// The inputs of one poll when nothing is pending and every mode change succeeds.
pub open spec fn quiet_inputs<T, E>() -> Seq<PollInput<T, E>> {
    seq![
        PollInput::Start,
        PollInput::ModeSet(Ok(())),
        PollInput::Probed(Probe::WouldBlock),
        PollInput::ModeSet(Ok(())),
    ]
}

/// The actions of one poll when nothing is pending.
pub open spec fn quiet_actions<T, E>() -> Seq<PollAction<T, E>> {
    seq![
        PollAction::SetNonBlocking,
        PollAction::Probe,
        PollAction::SetBlocking,
        PollAction::Yield(Ok(None)),
    ]
}

/// `s` repeated `n` times.
pub open spec fn repeated<A>(s: Seq<A>, n: nat) -> Seq<A>
    decreases n,
{
    if n == 0 {
        Seq::empty()
    } else {
        s + repeated(s, (n - 1) as nat)
    }
}

/// A run of inputs goes through its first part and then on from where that ended.
proof fn lemma_run_append<T, E>(
    phase: PollPhase<T, E>,
    a: Seq<PollInput<T, E>>,
    b: Seq<PollInput<T, E>>,
)
    ensures
        poll_run(phase, a + b) == (
            poll_run(poll_run(phase, a).0, b).0,
            poll_run(phase, a).1 + poll_run(poll_run(phase, a).0, b).1,
        ),
    decreases a.len(),
{
    if a.len() == 0 {
        assert(a + b =~= b);
        assert(poll_run(phase, a).1 + poll_run(phase, b).1 =~= poll_run(phase, b).1);
    } else {
        let (next, act) = poll_step(phase, a[0]);
        assert((a + b).drop_first() =~= a.drop_first() + b);
        lemma_run_append(next, a.drop_first(), b);
        let (mid, acts_a) = poll_run(next, a.drop_first());
        let (last, acts_b) = poll_run(mid, b);
        assert(seq![act] + (acts_a + acts_b) =~= (seq![act] + acts_a) + acts_b);
    }
}

/// Polling repeatedly with nothing pending gives "no event" every time, and
/// every poll hands the transport back in blocking mode.
pub proof fn lemma_quiet_polls<T, E>(n: nat)
    ensures
        poll_run(PollPhase::<T, E>::Idle, repeated(quiet_inputs::<T, E>(), n)) == (
            PollPhase::<T, E>::Idle,
            repeated(quiet_actions::<T, E>(), n),
        ),
    decreases n,
{
    if n > 0 {
        let q = quiet_inputs::<T, E>();
        lemma_run_append(PollPhase::<T, E>::Idle, q, repeated(q, (n - 1) as nat));
        lemma_quiet_polls::<T, E>((n - 1) as nat);
        let r1 = poll_run(PollPhase::<T, E>::Idle, q);
        reveal_with_fuel(poll_run, 5);
        assert(r1.0 == PollPhase::<T, E>::Idle);
        assert(r1.1 =~= quiet_actions::<T, E>());
    }
}

/// Every exit of a poll cycle leaves the machine idle, and every probe outcome,
/// an event, no event or an error, is followed by the switch back to blocking
/// mode before anything is handed to the caller.
pub proof fn lemma_blocking_restored<T, E>(phase: PollPhase<T, E>, input: PollInput<T, E>)
    requires
        accepts(phase, input),
    ensures
        poll_step(phase, input).1 is Yield ==> poll_step(phase, input).0 is Idle,
        phase is Probing ==> poll_step(phase, input).1 is SetBlocking,
        phase is Probing ==> poll_step(phase, input).0 is Restoring,
{
}

/// A probe outcome, once blocking mode is back, reaches the caller unchanged.
pub proof fn lemma_probe_delivered<T, E>(p: Probe<T, E>)
    ensures
        poll_run(
            PollPhase::<T, E>::Probing,
            seq![PollInput::Probed(p), PollInput::ModeSet(Ok(()))],
        ) == (
            PollPhase::<T, E>::Idle,
            seq![PollAction::<T, E>::SetBlocking, PollAction::Yield(probe_result(p))],
        ),
{
    reveal_with_fuel(poll_run, 3);
    assert(poll_run(
        PollPhase::<T, E>::Probing,
        seq![PollInput::Probed(p), PollInput::ModeSet(Ok(()))],
    ).1 =~= seq![PollAction::<T, E>::SetBlocking, PollAction::Yield(probe_result(p))]);
}

/// The state of one poll cycle.
pub struct Poller<T, E> {
    phase: PollPhase<T, E>,
}

impl<T, E> View for Poller<T, E> {
    type V = PollPhase<T, E>;

    closed spec fn view(&self) -> PollPhase<T, E> {
        self.phase
    }
}

impl<T, E> Poller<T, E> {
    /// A machine with the transport in blocking mode and no cycle under way.
    pub fn new() -> (r: Self)
        ensures
            r@ is Idle,
    {
        Poller { phase: PollPhase::Idle }
    }

    /// Whether no cycle is under way.
    pub fn is_idle(&self) -> (r: bool)
        ensures
            r == self@ is Idle,
    {
        match self.phase {
            PollPhase::Idle => true,
            _ => false,
        }
    }

    /// Takes one input and says what the driver is to do next.
    pub fn advance(&mut self, input: PollInput<T, E>) -> (r: PollAction<T, E>)
        requires
            accepts(old(self)@, input),
        ensures
            (final(self)@, r) == poll_step(old(self)@, input),
    {
        let mut cur = PollPhase::Idle;
        std::mem::swap(&mut cur, &mut self.phase);
        match (cur, input) {
            (PollPhase::Idle, PollInput::Start) => {
                self.phase = PollPhase::Entering;
                PollAction::SetNonBlocking
            },
            (PollPhase::Entering, PollInput::ModeSet(Ok(()))) => {
                self.phase = PollPhase::Probing;
                PollAction::Probe
            },
            (PollPhase::Entering, PollInput::ModeSet(Err(e))) => PollAction::Yield(Err(e)),
            (PollPhase::Probing, PollInput::Probed(p)) => {
                let res = match p {
                    Probe::Ready(v) => Ok(Some(v)),
                    Probe::WouldBlock => Ok(None),
                    Probe::Failed(e) => Err(e),
                };
                self.phase = PollPhase::Restoring(res);
                PollAction::SetBlocking
            },
            (PollPhase::Restoring(res), PollInput::ModeSet(Ok(()))) => PollAction::Yield(res),
            (PollPhase::Restoring(_), PollInput::ModeSet(Err(e))) => PollAction::Yield(Err(e)),
            (other, _) => {
                self.phase = other;
                PollAction::SetBlocking
            },
        }
    }
}

} // verus!
