//! The attendance/break state machine and its event dispatcher.
//!
//! A `SessionState` holds the attendance and break flags, the elapsed
//! working time in seconds, and the generation token of the current working
//! session. The dispatcher applies toggle events to it and reports, as plain
//! data, which display-sink notifications to emit and whether a new ticker
//! must be started.

use vstd::prelude::*;

verus! {

/// The mutable session record shared by the dispatcher and the ticker.
#[derive(Clone, Copy, PartialEq, Eq, Structural, Debug)]
pub struct SessionState {
    /// Attendance: `true` while working.
    pub working: bool,
    /// Break: meaningful only while working; frozen time while `true`.
    pub on_break: bool,
    /// Seconds spent working and not on break, this session.
    pub elapsed: u64,
    /// Incremented each time a working session starts; a ticker holding an
    /// older value knows it has been superseded.
    pub generation: u64,
}

/// A user-intent event delivered by the event source.
#[derive(Clone, Copy, PartialEq, Eq, Structural, Debug)]
pub enum Event {
    /// The named attendance command: start or end a working session.
    AttendanceToggle,
    /// The named break command: enter or leave a break.
    BreakToggle,
    /// A generic activation: ends the break if on one, else toggles
    /// attendance.
    PrimaryActivation,
}

/// A control of the display sink whose enabled state the dispatcher drives.
#[derive(Clone, Copy, PartialEq, Eq, Structural, Debug)]
pub enum Control {
    Attendance,
    Break,
}

/// What the display sink's label should show.
#[derive(Clone, Copy, PartialEq, Eq, Structural, Debug)]
pub enum Label {
    /// No session: an empty label.
    Clear,
    /// The on-break marker.
    OnBreak,
    /// The elapsed working time, in seconds, to render as `HH:MM:SS`.
    Elapsed(u64),
}

/// One notification owed to the display sink.
#[derive(Clone, Copy, PartialEq, Eq, Structural, Debug)]
pub enum SinkCommand {
    SetLabel(Label),
    SetControlEnabled(Control, bool),
}

/// What applying one event requires of the surroundings: the sink
/// notifications, in order, and the generation of a ticker to start, if any.
pub struct DispatchOutcome {
    pub commands: Vec<SinkCommand>,
    pub start_ticker: Option<u64>,
}

/// Whether `e`, arriving in state `s`, acts as an attendance toggle: the
/// named attendance command always does, and a primary activation does
/// whenever no break is in progress.
pub open spec fn acts_as_attendance(s: SessionState, e: Event) -> bool {
    e == Event::AttendanceToggle || (e == Event::PrimaryActivation && !s.on_break)
}

/// The state after `e` is applied in state `s`.
pub open spec fn next_state(s: SessionState, e: Event) -> SessionState {
    if acts_as_attendance(s, e) {
        if !s.working {
            SessionState {
                working: true,
                on_break: false,
                elapsed: 0,
                generation: (s.generation + 1) as u64,
            }
        } else {
            SessionState { working: false, on_break: false, elapsed: 0, ..s }
        }
    } else {
        if s.working {
            SessionState { on_break: !s.on_break, ..s }
        } else {
            s
        }
    }
}

/// The generation a new ticker must be started with, if `e` in state `s`
/// begins a working session.
pub open spec fn start_of(s: SessionState, e: Event) -> Option<u64> {
    if acts_as_attendance(s, e) && !s.working {
        Some((s.generation + 1) as u64)
    } else {
        None
    }
}

/// The display-sink notifications owed for `e` in state `s`, in order.
pub open spec fn commands_of(s: SessionState, e: Event) -> Seq<SinkCommand> {
    if acts_as_attendance(s, e) {
        if !s.working {
            seq![SinkCommand::SetControlEnabled(Control::Break, true)]
        } else {
            seq![
                SinkCommand::SetLabel(Label::Clear),
                SinkCommand::SetControlEnabled(Control::Break, false),
            ]
        }
    } else {
        if s.working {
            if !s.on_break {
                seq![
                    SinkCommand::SetLabel(Label::OnBreak),
                    SinkCommand::SetControlEnabled(Control::Attendance, false),
                ]
            } else {
                seq![SinkCommand::SetControlEnabled(Control::Attendance, true)]
            }
        } else {
            Seq::empty()
        }
    }
}

impl SessionState {
    /// The state invariant: a break only happens while working, and elapsed
    /// time is zero outside a session.
    pub open spec fn wf(self) -> bool {
        (self.on_break ==> self.working) && (!self.working ==> self.elapsed == 0)
    }

    /// The all-zero, not-working state a process starts in.
    pub fn new() -> (s: SessionState)
        ensures
            s == (SessionState { working: false, on_break: false, elapsed: 0, generation: 0 }),
            s.wf(),
    {
        SessionState { working: false, on_break: false, elapsed: 0, generation: 0 }
    }

    /// Applies one event: mutates the state per the transition table and
    /// returns the sink notifications owed and the generation of a ticker to
    /// start, if one is.
    pub fn apply_event(&mut self, e: Event) -> (out: DispatchOutcome)
        requires
            old(self).wf(),
            old(self).generation < u64::MAX,
        ensures
            *final(self) == next_state(*old(self), e),
            final(self).wf(),
            out.commands@ == commands_of(*old(self), e),
            out.start_ticker == start_of(*old(self), e),
    {
        let mut commands: Vec<SinkCommand> = Vec::new();
        let attendance = match e {
            Event::AttendanceToggle => true,
            Event::BreakToggle => false,
            Event::PrimaryActivation => !self.on_break,
        };
        if attendance {
            if !self.working {
                self.working = true;
                self.on_break = false;
                self.elapsed = 0;
                self.generation = self.generation + 1;
                commands.push(SinkCommand::SetControlEnabled(Control::Break, true));
                proof {
                    assert(commands@ =~= commands_of(*old(self), e));
                }
                DispatchOutcome { commands, start_ticker: Some(self.generation) }
            } else {
                self.working = false;
                self.on_break = false;
                self.elapsed = 0;
                commands.push(SinkCommand::SetLabel(Label::Clear));
                commands.push(SinkCommand::SetControlEnabled(Control::Break, false));
                proof {
                    assert(commands@ =~= commands_of(*old(self), e));
                }
                DispatchOutcome { commands, start_ticker: None }
            }
        } else {
            if self.working {
                if !self.on_break {
                    self.on_break = true;
                    commands.push(SinkCommand::SetLabel(Label::OnBreak));
                    commands.push(SinkCommand::SetControlEnabled(Control::Attendance, false));
                } else {
                    self.on_break = false;
                    commands.push(SinkCommand::SetControlEnabled(Control::Attendance, true));
                }
            }
            proof {
                assert(commands@ =~= commands_of(*old(self), e));
            }
            DispatchOutcome { commands, start_ticker: None }
        }
    }
}

/// A second attendance toggle straight after the one that opened a session
/// closes it again with nothing accumulated: `elapsed` is zero and the state
/// is back to not-working.
pub proof fn lemma_toggle_twice_restores_idle(s: SessionState)
    requires
        s.wf(),
        !s.working,
    ensures
        !next_state(next_state(s, Event::AttendanceToggle), Event::AttendanceToggle).working,
        next_state(next_state(s, Event::AttendanceToggle), Event::AttendanceToggle).elapsed == 0,
        next_state(next_state(s, Event::AttendanceToggle), Event::AttendanceToggle).wf(),
{
}

/// A break toggle while not working changes nothing: no state change, no
/// sink notification, no ticker start.
pub proof fn lemma_break_while_idle_is_noop(s: SessionState)
    requires
        s.wf(),
        !s.working,
    ensures
        next_state(s, Event::BreakToggle) == s,
        commands_of(s, Event::BreakToggle) == Seq::<SinkCommand>::empty(),
        start_of(s, Event::BreakToggle) is None,
{
}

/// Every event preserves the state invariant.
pub proof fn lemma_next_state_wf(s: SessionState, e: Event)
    requires
        s.wf(),
    ensures
        next_state(s, e).wf(),
{
}

/// A ticker is only ever started for a brand-new generation, strictly above
/// every generation seen before; and the generation never decreases.
pub proof fn lemma_start_is_fresh_generation(s: SessionState, e: Event)
    requires
        s.wf(),
        s.generation < u64::MAX,
    ensures
        next_state(s, e).generation >= s.generation,
        start_of(s, e) is Some ==> !s.working && start_of(s, e) == Some(
            (s.generation + 1) as u64,
        ) && next_state(s, e).generation == s.generation + 1,
        start_of(s, e) is None ==> next_state(s, e).generation == s.generation,
{
}

/// No two consecutive events can both start a ticker: whatever arrives next
/// after a session starts, it starts no second ticker, so two tickers can
/// never be launched for the same (or simultaneously live) generation.
pub proof fn lemma_no_consecutive_starts(s: SessionState, e1: Event, e2: Event)
    requires
        s.wf(),
        start_of(s, e1) is Some,
    ensures
        start_of(next_state(s, e1), e2) is None,
{
}

} // verus!
