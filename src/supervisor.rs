use vstd::prelude::*;

verus! {

/// Where the supervision of the tunnel client stands.
#[derive(PartialEq, Eq, Structural, Clone, Copy, Debug)]
pub enum Phase {
    /// The child runs and no shutdown has been asked for.
    Running,
    /// An interrupt was relayed to the child; waiting for it to exit.
    ShuttingDown,
    /// The child has exited and was reaped.
    Exited,
}

/// A graceful-termination notification that the process subscribes to.
#[derive(PartialEq, Eq, Structural, Clone, Copy, Debug)]
pub enum ShutdownSignal {
    Interrupt,
    Quit,
    Terminate,
}

/// What the supervision loop observes while it waits.
#[derive(PartialEq, Eq, Structural, Clone, Copy, Debug)]
pub enum Event {
    /// The child process terminated and was reaped.
    ChildExited,
    /// The process itself received a termination signal.
    Signal(ShutdownSignal),
}

/// What the loop has to do after an event.
#[derive(PartialEq, Eq, Structural, Clone, Copy, Debug)]
pub enum Action {
    /// Nothing to do; keep waiting on both sources.
    KeepWaiting,
    /// Send one interrupt to the child, then keep waiting for it to exit.
    SendInterrupt,
    /// Release the signal registration and return to the caller.
    Finish,
}

/// One transition of the supervision state machine. Every received signal
/// is normalised to a single interrupt for the child, sent at most once.
pub open spec fn transition(p: Phase, e: Event) -> (Phase, Action) {
    match p {
        Phase::Running => match e {
            Event::ChildExited => (Phase::Exited, Action::Finish),
            Event::Signal(_) => (Phase::ShuttingDown, Action::SendInterrupt),
        },
        Phase::ShuttingDown => match e {
            Event::ChildExited => (Phase::Exited, Action::Finish),
            Event::Signal(_) => (Phase::ShuttingDown, Action::KeepWaiting),
        },
        Phase::Exited => (Phase::Exited, Action::KeepWaiting),
    }
}

/// The phase reached after feeding `events` in order, starting from `p`.
pub open spec fn phase_after(p: Phase, events: Seq<Event>) -> Phase
    decreases events.len(),
{
    if events.len() == 0 {
        p
    } else {
        phase_after(transition(p, events[0]).0, events.drop_first())
    }
}

/// The actions taken while feeding `events` in order, starting from `p`.
pub open spec fn actions_after(p: Phase, events: Seq<Event>) -> Seq<Action>
    decreases events.len(),
{
    if events.len() == 0 {
        Seq::empty()
    } else {
        seq![transition(p, events[0]).1] + actions_after(
            transition(p, events[0]).0,
            events.drop_first(),
        )
    }
}

/// How many interrupts a sequence of actions sends to the child.
pub open spec fn interrupts_sent(actions: Seq<Action>) -> nat
    decreases actions.len(),
{
    if actions.len() == 0 {
        0
    } else {
        (if actions[0] == Action::SendInterrupt {
            1nat
        } else {
            0nat
        }) + interrupts_sent(actions.drop_first())
    }
}

/// The decisions of the supervision loop over one spawned child.
pub struct Supervisor {
    pub phase: Phase,
}

impl Supervisor {
    /// A supervisor for a child that was just spawned.
    pub fn new() -> (s: Supervisor)
        ensures
            s.phase == Phase::Running,
    {
        Supervisor { phase: Phase::Running }
    }

    /// Whether the child has exited, so that the loop may return.
    pub fn is_done(&self) -> (r: bool)
        ensures
            r == (self.phase == Phase::Exited),
    {
        self.phase == Phase::Exited
    }

    /// Takes one event and says what the loop has to do.
    pub fn handle(&mut self, event: Event) -> (a: Action)
        ensures
            (final(self).phase, a) == transition(old(self).phase, event),
    {
        let (next, action) = match self.phase {
            Phase::Running => match event {
                Event::ChildExited => (Phase::Exited, Action::Finish),
                Event::Signal(_) => (Phase::ShuttingDown, Action::SendInterrupt),
            },
            Phase::ShuttingDown => match event {
                Event::ChildExited => (Phase::Exited, Action::Finish),
                Event::Signal(_) => (Phase::ShuttingDown, Action::KeepWaiting),
            },
            Phase::Exited => (Phase::Exited, Action::KeepWaiting),
        };
        self.phase = next;
        action
    }
}

/// Once the child has exited nothing more happens: further events change
/// no phase and take no action.
pub proof fn lemma_exited_is_final(events: Seq<Event>)
    ensures
        phase_after(Phase::Exited, events) == Phase::Exited,
        interrupts_sent(actions_after(Phase::Exited, events)) == 0,
        !actions_after(Phase::Exited, events).contains(Action::Finish),
    decreases events.len(),
{
    if events.len() > 0 {
        lemma_exited_is_final(events.drop_first());
        let rest = actions_after(Phase::Exited, events.drop_first());
        assert(actions_after(Phase::Exited, events) == seq![Action::KeepWaiting] + rest);
        assert(actions_after(Phase::Exited, events).drop_first() =~= rest);
        if actions_after(Phase::Exited, events).contains(Action::Finish) {
            let k = choose|k: int|
                0 <= k < actions_after(Phase::Exited, events).len()
                    && actions_after(Phase::Exited, events)[k] == Action::Finish;
            assert(rest[k - 1] == Action::Finish);
        }
    }
}

/// While shutting down, further signals relay nothing more, and the loop
/// reaches its end exactly when the child has exited.
pub proof fn lemma_shutting_down_sends_nothing(events: Seq<Event>)
    ensures
        interrupts_sent(actions_after(Phase::ShuttingDown, events)) == 0,
        phase_after(Phase::ShuttingDown, events) == Phase::Exited <==> events.contains(
            Event::ChildExited,
        ),
    decreases events.len(),
{
    if events.len() > 0 {
        let acts = actions_after(Phase::ShuttingDown, events);
        let rest = events.drop_first();
        assert(acts.drop_first() =~= actions_after(transition(Phase::ShuttingDown, events[0]).0, rest));
        if events[0] == Event::ChildExited {
            lemma_exited_is_final(rest);
            assert(events.contains(Event::ChildExited)) by {
                assert(events[0] == Event::ChildExited);
            }
        } else {
            lemma_shutting_down_sends_nothing(rest);
            if events.contains(Event::ChildExited) {
                let k = choose|k: int| 0 <= k < events.len() && events[k] == Event::ChildExited;
                assert(rest[k - 1] == Event::ChildExited);
            }
            if rest.contains(Event::ChildExited) {
                let k = choose|k: int| 0 <= k < rest.len() && rest[k] == Event::ChildExited;
                assert(events[k + 1] == Event::ChildExited);
            }
        }
    }
}

/// A child that exits on its own before any signal ends the loop at once:
/// the loop finishes on that first event and never relays an interrupt.
pub proof fn lemma_exit_before_signal(events: Seq<Event>)
    requires
        events.len() > 0,
        events[0] == Event::ChildExited,
    ensures
        phase_after(Phase::Running, events.take(1)) == Phase::Exited,
        actions_after(Phase::Running, events.take(1)) == seq![Action::Finish],
        phase_after(Phase::Running, events) == Phase::Exited,
        interrupts_sent(actions_after(Phase::Running, events)) == 0,
{
    let one = events.take(1);
    assert(one.drop_first() =~= Seq::<Event>::empty());
    assert(one[0] == Event::ChildExited);
    assert(phase_after(Phase::Exited, one.drop_first()) == Phase::Exited);
    assert(actions_after(Phase::Exited, one.drop_first()) =~= Seq::<Action>::empty());
    assert(actions_after(Phase::Running, one) =~= seq![Action::Finish]);
    lemma_exited_is_final(events.drop_first());
    let acts = actions_after(Phase::Running, events);
    assert(acts.drop_first() =~= actions_after(Phase::Exited, events.drop_first()));
}

/// A signal that arrives while the child runs makes the loop relay exactly
/// one interrupt to it, whatever follows; and the loop reaches its end only
/// once the child has exited.
pub proof fn lemma_signal_relayed_once(events: Seq<Event>)
    requires
        events.len() > 0,
        events[0] is Signal,
    ensures
        interrupts_sent(actions_after(Phase::Running, events)) == 1,
        phase_after(Phase::Running, events) == Phase::Exited <==> events.contains(
            Event::ChildExited,
        ),
{
    let rest = events.drop_first();
    let acts = actions_after(Phase::Running, events);
    lemma_shutting_down_sends_nothing(rest);
    assert(acts.drop_first() =~= actions_after(Phase::ShuttingDown, rest));
    assert(acts[0] == Action::SendInterrupt);
    if events.contains(Event::ChildExited) {
        let k = choose|k: int| 0 <= k < events.len() && events[k] == Event::ChildExited;
        assert(rest[k - 1] == Event::ChildExited);
    }
    if rest.contains(Event::ChildExited) {
        let k = choose|k: int| 0 <= k < rest.len() && rest[k] == Event::ChildExited;
        assert(events[k + 1] == Event::ChildExited);
    }
}

} // verus!
