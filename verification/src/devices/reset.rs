//! How a reset that the guest asked for is carried out.

use vstd::prelude::*;

verus! {

/// Milliseconds between two looks at the virtual CPUs.
pub const RESET_INTERVAL: u64 = 1;

/// How long, in milliseconds, a reset waits before the next look at the virtual CPUs.
/// It waits no more once they have been told to stop or to pause.
pub fn reset_wait(killed: bool, paused: bool) -> (rest: Option<u64>)
    ensures
        rest == (if killed || paused {
            None
        } else {
            Some(RESET_INTERVAL)
        }),
        rest == (if killed || paused {
            None
        } else {
            Some(1u64)
        }),
{
    if killed || paused {
        None
    } else {
        Some(RESET_INTERVAL)
    }
}

/// Where a reset stands.
#[derive(Debug, Clone, Copy, PartialEq, Eq, Structural)]
pub enum Reset {
    /// The reset is to be signalled.
    Signal,
    /// It is to be found out whether the virtual CPUs were told to stop or to pause.
    Check,
    /// They were not, and the reset waits.
    Rest { milliseconds: u64 },
    /// They were: the access that asked for the reset is over.
    Complete,
}

/// What a reset asks for next.
#[derive(Debug, Clone, Copy, PartialEq, Eq, Structural)]
pub enum ResetAction {
    /// Signal the reset, once.
    Signal,
    /// Find out whether the virtual CPUs were told to stop or to pause.
    AskFlags,
    /// Rest for that many milliseconds.
    Rest(u64),
    /// Nothing: the access is over.
    Return,
}

/// How a reset was answered.
#[derive(Debug, Clone, Copy, PartialEq, Eq, Structural)]
pub enum ResetEvent {
    /// The reset was signalled, or could not be.
    Signalled,
    /// Whether the virtual CPUs were told to stop, and whether to pause.
    Flags { killed: bool, paused: bool },
    /// The rest is over.
    Rested,
}

impl Reset {
    /// What the reset asks for next.
    pub open spec fn spec_action(self) -> ResetAction {
        match self {
            Reset::Signal => ResetAction::Signal,
            Reset::Check => ResetAction::AskFlags,
            Reset::Rest { milliseconds } => ResetAction::Rest(milliseconds),
            Reset::Complete => ResetAction::Return,
        }
    }

    /// Where the reset stands after an answer. One that does not fit the question
    /// changes nothing.
    pub open spec fn spec_advance(self, event: ResetEvent) -> Reset {
        match (self, event) {
            (Reset::Signal, ResetEvent::Signalled) => Reset::Check,
            (Reset::Check, ResetEvent::Flags { killed, paused }) => if killed || paused {
                Reset::Complete
            } else {
                Reset::Rest { milliseconds: RESET_INTERVAL }
            },
            (Reset::Rest { .. }, ResetEvent::Rested) => Reset::Check,
            _ => self,
        }
    }

    /// A reset that was just asked for.
    pub fn new() -> (reset: Reset)
        ensures
            reset == Reset::Signal,
    {
        Reset::Signal
    }

    /// What the reset asks for next.
    pub fn action(self) -> (action: ResetAction)
        ensures
            action == self.spec_action(),
    {
        match self {
            Reset::Signal => ResetAction::Signal,
            Reset::Check => ResetAction::AskFlags,
            Reset::Rest { milliseconds } => ResetAction::Rest(milliseconds),
            Reset::Complete => ResetAction::Return,
        }
    }

    /// Takes an answer. One that does not fit the question changes nothing.
    pub fn advance(self, event: ResetEvent) -> (next: Reset)
        ensures
            next == self.spec_advance(event),
    {
        match (self, event) {
            (Reset::Signal, ResetEvent::Signalled) => Reset::Check,
            (Reset::Check, ResetEvent::Flags { killed, paused }) => match reset_wait(
                killed,
                paused,
            ) {
                Some(milliseconds) => Reset::Rest { milliseconds },
                None => Reset::Complete,
            },
            (Reset::Rest { .. }, ResetEvent::Rested) => Reset::Check,
            (reset, _) => reset,
        }
    }
}

/// Where a reset stands after a string of answers.
pub open spec fn reset_after(events: Seq<ResetEvent>) -> Reset
    decreases events.len(),
{
    if events.len() == 0 {
        Reset::Signal
    } else {
        reset_after(events.drop_last()).spec_advance(events.last())
    }
}

/// The reset asked to be signalled, and answer `i` was that it was.
pub open spec fn signalled_at(events: Seq<ResetEvent>, i: int) -> bool {
    &&& 0 <= i < events.len()
    &&& reset_after(events.take(i)).spec_action() == ResetAction::Signal
    &&& events[i] == ResetEvent::Signalled
}

/// The reset asked for the virtual CPUs, and answer `i` was that they were told to stop
/// or to pause.
pub open spec fn released_at(events: Seq<ResetEvent>, i: int) -> bool {
    &&& 0 <= i < events.len()
    &&& reset_after(events.take(i)).spec_action() == ResetAction::AskFlags
    &&& events[i] matches ResetEvent::Flags { killed, paused } && (killed || paused)
}

/// The reset was signalled by answer `p` and no other, and after that the virtual CPUs
/// were seen, in answer `q`, to have been told to stop or to pause.
pub open spec fn carried_out_by(events: Seq<ResetEvent>, p: int, q: int) -> bool {
    &&& signalled_at(events, p)
    &&& released_at(events, q)
    &&& p < q
    &&& forall|i: int| #[trigger] signalled_at(events, i) ==> i == p
}

/// What came to pass of a reset by the time that it stands where it stands.
spec fn reset_so_far(events: Seq<ResetEvent>) -> bool {
    match reset_after(events) {
        Reset::Signal => {
            &&& forall|i: int| !(#[trigger] signalled_at(events, i))
            &&& forall|i: int| !(#[trigger] released_at(events, i))
        },
        Reset::Complete => exists|p: int, q: int| carried_out_by(events, p, q),
        _ => {
            &&& exists|p: int|
                #[trigger] signalled_at(events, p) && forall|i: int|
                    #[trigger] signalled_at(events, i) ==> i == p
            &&& forall|i: int| !(#[trigger] released_at(events, i))
        },
    }
}

/// The place where a reset stands tells what came to pass.
#[verifier::spinoff_prover]
proof fn lemma_reset_so_far(events: Seq<ResetEvent>)
    ensures
        reset_so_far(events),
    decreases events.len(),
{
    if events.len() > 0 {
        let before = events.drop_last();
        let n = before.len() as int;
        lemma_reset_so_far(before);
        assert(events.take(n) =~= before);
        assert forall|i: int| 0 <= i < n implies #[trigger] signalled_at(events, i)
            == signalled_at(before, i) by {
            assert(events.take(i) =~= before.take(i));
        }
        assert forall|i: int| 0 <= i < n implies #[trigger] released_at(events, i)
            == released_at(before, i) by {
            assert(events.take(i) =~= before.take(i));
        }
        let was = reset_after(before);
        assert(reset_after(events) == was.spec_advance(events[n]));
        assert(signalled_at(events, n) == (was is Signal && events[n] is Signalled));
        assert(forall|i: int| #[trigger] signalled_at(before, i) ==> 0 <= i < n);
        assert(forall|i: int| #[trigger] released_at(before, i) ==> 0 <= i < n);
        assert(forall|i: int| #[trigger] signalled_at(events, i) ==> 0 <= i <= n);
        assert(forall|i: int| #[trigger] released_at(events, i) ==> 0 <= i <= n);
        match was {
            Reset::Signal => {},
            Reset::Complete => {
                let (p, q) = choose|p: int, q: int| carried_out_by(before, p, q);
                assert(carried_out_by(events, p, q));
            },
            _ => {
                let p = choose|p: int|
                    #[trigger] signalled_at(before, p) && forall|i: int|
                        #[trigger] signalled_at(before, i) ==> i == p;
                assert(signalled_at(events, p));
                if released_at(events, n) {
                    assert(carried_out_by(events, p, n));
                }
            },
        }
    }
}

/// The access that asked for a reset is over only after the reset was signalled, once
/// and only once, and then the virtual CPUs were seen to have been told to stop or to
/// pause.
pub proof fn law_reset_waits(events: Seq<ResetEvent>)
    requires
        reset_after(events) is Complete,
    ensures
        exists|p: int, q: int| carried_out_by(events, p, q),
{
    lemma_reset_so_far(events);
}

/// A reset does not wait longer than it has to: it is over as soon as the virtual CPUs
/// are seen to have been told to stop or to pause, and not before.
pub proof fn law_reset_ends(events: Seq<ResetEvent>, i: int)
    requires
        0 <= i < events.len(),
    ensures
        released_at(events, i) <==> reset_after(events.take(i)) !is Complete && reset_after(
            events.take(i + 1),
        ) is Complete,
{
    assert(events.take(i + 1).drop_last() =~= events.take(i));
}

/// A reset is signalled first, and then looks every millisecond until the virtual CPUs
/// were told to stop or to pause.
pub proof fn law_reset_keeps_looking(killed: bool, paused: bool)
    ensures
        Reset::Signal.spec_action() == ResetAction::Signal,
        ({
            let looks = Reset::Signal.spec_advance(ResetEvent::Signalled);
            let saw = looks.spec_advance(ResetEvent::Flags { killed, paused });
            &&& looks.spec_action() == ResetAction::AskFlags
            &&& killed || paused ==> saw.spec_action() == ResetAction::Return
            &&& !killed && !paused ==> saw.spec_action() == ResetAction::Rest(1)
                && saw.spec_advance(ResetEvent::Rested) == looks
        }),
{
}

/// An answer to another question changes nothing, and a reset that is over stays so.
pub proof fn law_reset_ignores_other_answers(reset: Reset, event: ResetEvent)
    requires
        event is Signalled ==> reset.spec_action() != ResetAction::Signal,
        event is Flags ==> reset.spec_action() != ResetAction::AskFlags,
        event is Rested ==> !(reset.spec_action() is Rest),
    ensures
        reset.spec_advance(event) == reset,
{
}

} // verus!
