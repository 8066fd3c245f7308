//! One step of the background ticker, and what repeating it does.
//!
//! The ticker itself is a loop in the surrounding program: once per tick
//! interval it calls [`tick`] with the generation it was started for. The
//! decision — stop because the session ended or was superseded, stay frozen
//! during a break, or advance the elapsed time — lives here; the loop only
//! sleeps, renders and pushes labels to the display sink.

use crate::duration::{fmt_hms, format_duration};
use crate::session::{Event, Label, SessionState};
use vstd::prelude::*;

verus! {

/// What one ticker iteration decided.
#[derive(Clone, Copy, PartialEq, Eq, Structural, Debug)]
pub enum TickOutcome {
    /// The session ended or a newer generation took over: the ticker must
    /// exit and push nothing more to the display sink.
    Stop,
    /// On break: elapsed time stays frozen, no display update.
    Frozen,
    /// One interval of working time accumulated; the new elapsed count, to
    /// be rendered and pushed to the display sink.
    Advanced(u64),
}

/// The state after one tick observed by a ticker of generation `gen`.
pub open spec fn tick_next(s: SessionState, gen: u64) -> SessionState {
    if !s.working || s.generation != gen {
        s
    } else if s.on_break {
        s
    } else {
        SessionState { elapsed: (s.elapsed + 1) as u64, ..s }
    }
}

/// What a ticker of generation `gen` decides when it observes state `s`.
pub open spec fn tick_result(s: SessionState, gen: u64) -> TickOutcome {
    if !s.working || s.generation != gen {
        TickOutcome::Stop
    } else if s.on_break {
        TickOutcome::Frozen
    } else {
        TickOutcome::Advanced((s.elapsed + 1) as u64)
    }
}

/// The state after `k` ticks observed by a ticker of generation `gen`, with
/// no event in between.
pub open spec fn ticks(s: SessionState, gen: u64, k: nat) -> SessionState
    decreases k,
{
    if k == 0 {
        s
    } else {
        tick_next(ticks(s, gen, (k - 1) as nat), gen)
    }
}

/// One iteration of a ticker started for generation `gen`: checks whether it
/// is still the live ticker, freezes during a break, and otherwise advances
/// the elapsed working time by one interval.
pub fn tick(s: &mut SessionState, gen: u64) -> (out: TickOutcome)
    requires
        old(s).wf(),
        old(s).elapsed < u64::MAX,
    ensures
        *final(s) == tick_next(*old(s), gen),
        final(s).wf(),
        out == tick_result(*old(s), gen),
        out is Stop ==> *final(s) == *old(s),
{
    if !s.working || s.generation != gen {
        TickOutcome::Stop
    } else if s.on_break {
        TickOutcome::Frozen
    } else {
        s.elapsed = s.elapsed + 1;
        TickOutcome::Advanced(s.elapsed)
    }
}

/// The text shown for a label: empty when cleared, the break marker on
/// break, and the `HH:MM:SS` rendering of the elapsed seconds otherwise.
pub open spec fn label_text(l: Label) -> Seq<char> {
    match l {
        Label::Clear => Seq::empty(),
        Label::OnBreak => "on break"@,
        Label::Elapsed(n) => fmt_hms(n as nat),
    }
}

/// Renders a label to the text the display sink is given.
pub fn render_label(l: Label) -> (r: String)
    ensures
        r@ == label_text(l),
{
    match l {
        Label::Clear => String::new(),
        Label::OnBreak => "on break".to_owned(),
        Label::Elapsed(n) => format_duration(n),
    }
}

/// While working and not on break, a live ticker advances the elapsed time
/// by exactly one interval per tick: after `k` ticks, `elapsed` has grown by
/// `k`, and nothing else has changed.
pub proof fn lemma_ticks_advance(s: SessionState, gen: u64, k: nat)
    requires
        s.working,
        !s.on_break,
        s.generation == gen,
        s.elapsed + k <= u64::MAX,
    ensures
        ticks(s, gen, k) == (SessionState { elapsed: (s.elapsed + k) as u64, ..s }),
    decreases k,
{
    if k > 0 {
        lemma_ticks_advance(s, gen, (k - 1) as nat);
    } else {
        assert(ticks(s, gen, k) == s);
    }
}

/// Entering a break freezes the elapsed time: however many ticks pass while
/// on break, the state does not change at all.
pub proof fn lemma_ticks_frozen_on_break(s: SessionState, gen: u64, k: nat)
    requires
        s.wf(),
        s.on_break,
    ensures
        ticks(s, gen, k) == s,
    decreases k,
{
    if k > 0 {
        lemma_ticks_frozen_on_break(s, gen, (k - 1) as nat);
    }
}

/// A ticker whose session has ended, or whose generation has been
/// superseded, only ever observes `Stop`: it changes nothing and produces no
/// further display update, however often it still wakes.
pub proof fn lemma_ticks_stale_are_silent(s: SessionState, gen: u64, k: nat)
    requires
        !s.working || s.generation != gen,
    ensures
        ticks(s, gen, k) == s,
        tick_result(ticks(s, gen, k), gen) == TickOutcome::Stop,
    decreases k,
{
    if k > 0 {
        lemma_ticks_stale_are_silent(s, gen, (k - 1) as nat);
    }
}

/// The generation bump happens before the new ticker's first poll: a ticker
/// started with the generation the dispatcher handed out finds a live,
/// not-on-break session with nothing elapsed, so its first tick advances the
/// display to one interval.
pub proof fn lemma_fresh_start_first_tick(s: SessionState, e: Event, g: u64)
    requires
        s.wf(),
        crate::session::start_of(s, e) == Some(g),
    ensures
        crate::session::next_state(s, e).generation == g,
        tick_result(crate::session::next_state(s, e), g) == TickOutcome::Advanced(1u64),
{
}

/// After the attendance toggle that ends a session, a ticker of the ended
/// generation — indeed of any generation — stops at its next poll and emits
/// nothing: at most one tick interval after the toggle, the display is
/// silent.
pub proof fn lemma_ended_session_silences_ticker(s: SessionState, e: Event, gen: u64, k: nat)
    requires
        s.wf(),
        s.working,
        crate::session::acts_as_attendance(s, e),
    ensures
        ticks(crate::session::next_state(s, e), gen, k) == crate::session::next_state(s, e),
        tick_result(crate::session::next_state(s, e), gen) == TickOutcome::Stop,
{
    lemma_ticks_stale_are_silent(crate::session::next_state(s, e), gen, k);
}

} // verus!
