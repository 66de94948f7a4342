//! The game loop driver as an explicit state machine.
//!
//! A run of the loop is a sequence of events: raw mode acquired or refused,
//! the init and draw steps answering whether to continue, and the terminal
//! state restored.  The machine below fixes what the driver does after each
//! event; `GameEngine::begin` follows it step for step and tracks its phase
//! in ghost state.  The laws at the end pin the two obligations that carry
//! the design: the draw step is never dispatched when init declines, and a
//! run that acquired raw mode always restores the terminal, exactly once.

use vstd::prelude::*;

verus! {

/// Where the driver stands between two events.
#[derive(Copy, Clone, PartialEq, Eq, Structural, Debug)]
pub enum DriverPhase {
    /// Nothing acquired yet; the next action is entering raw mode.
    Start,
    /// Raw mode is held; the next action is the one-time init step.
    Init,
    /// Raw mode is held; the next action is a frame: a draw step, then a
    /// flush.
    Frame,
    /// The loop is over; the next action restores the terminal state.
    Restore,
    /// The run is finished; nothing more happens.
    Done,
}

/// What one step of the loop reports back to the machine.
#[derive(Copy, Clone, PartialEq, Eq, Structural, Debug)]
pub enum DriverEvent {
    /// Raw mode was acquired.
    RawModeOk,
    /// Raw mode could not be acquired; the terminal was left untouched, so
    /// there is nothing to restore.
    RawModeFailed,
    /// The init step, or a frame's draw step, answered whether the game
    /// goes on.
    Continue(bool),
    /// Restoring the terminal state was carried out (or attempted; a
    /// teardown error still counts as carried out).
    Restored,
}

/// What the driver does in each phase.
#[derive(Copy, Clone, PartialEq, Eq, Structural, Debug)]
pub enum DriverAction {
    EnterRawMode,
    CallInit,
    RunFrame,
    RestoreTerminal,
    Finished,
}

/// The action the driver dispatches in each phase.
pub open spec fn phase_action(p: DriverPhase) -> DriverAction {
    match p {
        DriverPhase::Start => DriverAction::EnterRawMode,
        DriverPhase::Init => DriverAction::CallInit,
        DriverPhase::Frame => DriverAction::RunFrame,
        DriverPhase::Restore => DriverAction::RestoreTerminal,
        DriverPhase::Done => DriverAction::Finished,
    }
}

/// The phase after an event.  An event that cannot answer the phase's action
/// changes nothing; `faithful_events` rules such events out of real runs.
pub open spec fn phase_step(p: DriverPhase, e: DriverEvent) -> DriverPhase {
    match p {
        DriverPhase::Start => match e {
            DriverEvent::RawModeOk => DriverPhase::Init,
            DriverEvent::RawModeFailed => DriverPhase::Done,
            _ => p,
        },
        DriverPhase::Init => match e {
            DriverEvent::Continue(true) => DriverPhase::Frame,
            DriverEvent::Continue(false) => DriverPhase::Restore,
            _ => p,
        },
        DriverPhase::Frame => match e {
            DriverEvent::Continue(true) => DriverPhase::Frame,
            DriverEvent::Continue(false) => DriverPhase::Restore,
            _ => p,
        },
        DriverPhase::Restore => match e {
            DriverEvent::Restored => DriverPhase::Done,
            _ => p,
        },
        DriverPhase::Done => p,
    }
}

/// The phase a run stands in after consuming `events`, starting from
/// `Start`.
pub open spec fn phase_after(events: Seq<DriverEvent>) -> DriverPhase
    decreases events.len(),
{
    if events.len() == 0 {
        DriverPhase::Start
    } else {
        phase_step(phase_after(events.drop_last()), events.last())
    }
}

/// Whether an event can answer the action of the given phase.
pub open spec fn event_fits(p: DriverPhase, e: DriverEvent) -> bool {
    match p {
        DriverPhase::Start => e == DriverEvent::RawModeOk || e == DriverEvent::RawModeFailed,
        DriverPhase::Init => e matches DriverEvent::Continue(_),
        DriverPhase::Frame => e matches DriverEvent::Continue(_),
        DriverPhase::Restore => e == DriverEvent::Restored,
        DriverPhase::Done => false,
    }
}

/// A real run of the loop: every event answers the phase it arrives in, and
/// nothing happens after the run is finished.
pub open spec fn faithful_events(events: Seq<DriverEvent>) -> bool {
    forall|i: int|
        0 <= i < events.len() ==> event_fits(phase_after(#[trigger] events.take(i)), events[i])
}

/// The phase after a prefix one longer is one step further.
pub proof fn lemma_phase_after_take_succ(events: Seq<DriverEvent>, j: int)
    requires
        0 <= j < events.len(),
    ensures
        phase_after(events.take(j + 1)) == phase_step(
            phase_after(events.take(j)),
            events[j],
        ),
{
    assert(events.take(j + 1).drop_last() =~= events.take(j));
    assert(events.take(j + 1).last() == events[j]);
}

/// Extending a real run by an event that answers its current phase keeps it
/// a real run and advances the phase by one step.
pub proof fn lemma_faithful_push(events: Seq<DriverEvent>, e: DriverEvent)
    requires
        faithful_events(events),
        event_fits(phase_after(events), e),
    ensures
        faithful_events(events.push(e)),
        phase_after(events.push(e)) == phase_step(phase_after(events), e),
{
    let p = events.push(e);
    assert(p.drop_last() =~= events);
    assert(p.last() == e);
    assert forall|i: int| 0 <= i < p.len() implies event_fits(
        phase_after(#[trigger] p.take(i)),
        p[i],
    ) by {
        if i < events.len() {
            assert(p.take(i) =~= events.take(i));
        } else {
            assert(p.take(i) =~= events);
        }
    }
}

/// Every prefix of a real run is a real run.
pub proof fn lemma_faithful_prefix(events: Seq<DriverEvent>, k: int)
    requires
        faithful_events(events),
        0 <= k <= events.len(),
    ensures
        faithful_events(events.take(k)),
{
    let p = events.take(k);
    assert forall|i: int| 0 <= i < p.len() implies event_fits(
        phase_after(#[trigger] p.take(i)),
        p[i],
    ) by {
        assert(p.take(i) =~= events.take(i));
        assert(event_fits(phase_after(events.take(i)), events[i]));
    }
}

/// In a real run the start phase is never revisited: no fitting event leads
/// back to it.
proof fn lemma_start_only_initial(events: Seq<DriverEvent>)
    requires
        faithful_events(events),
        phase_after(events) == DriverPhase::Start,
    ensures
        events.len() == 0,
    decreases events.len(),
{
    if events.len() > 0 {
        let prev = events.drop_last();
        let e = events.last();
        assert(events.take(events.len() - 1) =~= prev);
        assert(events.take(events.len() as int) =~= events);
        assert(event_fits(phase_after(prev), e));
        assert(phase_step(phase_after(prev), e) != DriverPhase::Start);
    }
}

/// If raw mode is acquired and the one-time init step declines, the run
/// never reaches the frame phase — the draw step is never dispatched — yet
/// the terminal-restore action is dispatched exactly once, after which the
/// run is finished.
pub proof fn lemma_init_decline_skips_frames(events: Seq<DriverEvent>)
    requires
        faithful_events(events),
        events.len() >= 2,
        events[0] == DriverEvent::RawModeOk,
        events[1] == DriverEvent::Continue(false),
    ensures
        events.len() <= 3,
        forall|i: int|
            0 <= i <= events.len() ==> phase_after(#[trigger] events.take(i))
                != DriverPhase::Frame,
        forall|i: int|
            0 <= i <= events.len() ==> (phase_after(#[trigger] events.take(i))
                == DriverPhase::Restore <==> i == 2),
{
    assert(phase_after(events.take(0)) == DriverPhase::Start);
    lemma_phase_after_take_succ(events, 0);
    assert(phase_after(events.take(1)) == DriverPhase::Init);
    lemma_phase_after_take_succ(events, 1);
    assert(phase_after(events.take(2)) == DriverPhase::Restore);
    if events.len() >= 3 {
        assert(event_fits(phase_after(events.take(2)), events[2]));
        assert(events[2] == DriverEvent::Restored);
        lemma_phase_after_take_succ(events, 2);
        assert(phase_after(events.take(3)) == DriverPhase::Done);
        if events.len() >= 4 {
            assert(event_fits(phase_after(events.take(3)), events[3]));
            assert(false);
        }
    }
    assert forall|i: int| 0 <= i <= events.len() implies phase_after(#[trigger] events.take(i))
        != DriverPhase::Frame && (phase_after(events.take(i)) == DriverPhase::Restore <==> i
        == 2) by {
        assert(i == 0 || i == 1 || i == 2 || i == 3);
    }
}

/// A finished run that acquired raw mode restored the terminal exactly once,
/// as its very last step; a finished run that never acquired raw mode never
/// restored anything, since the terminal was left untouched.
pub proof fn lemma_done_implies_restored(events: Seq<DriverEvent>)
    requires
        faithful_events(events),
        events.len() >= 1,
        phase_after(events) == DriverPhase::Done,
    ensures
        events[0] == DriverEvent::RawModeOk ==> phase_after(events.take(events.len() - 1))
            == DriverPhase::Restore && events.last() == DriverEvent::Restored,
        events[0] == DriverEvent::RawModeOk ==> forall|i: int|
            0 <= i <= events.len() ==> (phase_after(#[trigger] events.take(i))
                == DriverPhase::Restore <==> i == events.len() - 1),
        events[0] == DriverEvent::RawModeFailed ==> events.len() == 1 && forall|i: int|
            0 <= i <= events.len() ==> phase_after(#[trigger] events.take(i))
                != DriverPhase::Restore,
{
    let n = events.len() as int;
    let prev = events.drop_last();
    let e = events.last();
    assert(events.take(n - 1) =~= prev);
    assert(events.take(n) =~= events);
    assert(event_fits(phase_after(prev), e));
    assert(event_fits(phase_after(events.take(0)), events[0]));
    if events[0] == DriverEvent::RawModeFailed {
        // The terminal was never touched: the run ends at once.
        lemma_phase_after_take_succ(events, 0);
        assert(phase_after(events.take(1)) == DriverPhase::Done);
        if n > 1 {
            assert(event_fits(phase_after(events.take(1)), events[1]));
            assert(false);
        }
        assert forall|i: int| 0 <= i <= n implies phase_after(#[trigger] events.take(i))
            != DriverPhase::Restore by {
            assert(i == 0 || i == 1);
        }
    } else {
        // Done is reached only from the restore phase.
        if phase_after(prev) == DriverPhase::Start {
            lemma_faithful_prefix(events, n - 1);
            lemma_start_only_initial(prev);
            // Then events is the single event RawModeOk, which does not finish.
            lemma_phase_after_take_succ(events, 0);
            assert(false);
        }
        assert(phase_after(prev) == DriverPhase::Restore);
        assert(e == DriverEvent::Restored);
        // And the restore phase is visited only there: from it the run
        // finishes at once, and nothing follows a finished run.
        assert forall|i: int|
            0 <= i <= n implies (phase_after(#[trigger] events.take(i)) == DriverPhase::Restore
            <==> i == n - 1) by {
            if 0 <= i < n - 1 && phase_after(events.take(i)) == DriverPhase::Restore {
                assert(event_fits(phase_after(events.take(i)), events[i]));
                lemma_phase_after_take_succ(events, i);
                assert(phase_after(events.take(i + 1)) == DriverPhase::Done);
                if i + 1 < n {
                    assert(event_fits(phase_after(events.take(i + 1)), events[i + 1]));
                    assert(false);
                }
                assert(phase_after(events) == phase_after(events.take(i + 1)));
            }
        }
    }
}

} // verus!
