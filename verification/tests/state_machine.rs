use attendance_timer::session::{Control, Event, Label, SessionState, SinkCommand};
use attendance_timer::ticker::{render_label, tick, TickOutcome};

#[test]
fn initial_state_is_idle() {
    let s = SessionState::new();
    assert!(!s.working);
    assert!(!s.on_break);
    assert_eq!(s.elapsed, 0);
    assert_eq!(s.generation, 0);
}

#[test]
fn attendance_toggle_starts_a_session() {
    let mut s = SessionState::new();
    let out = s.apply_event(Event::AttendanceToggle);
    assert!(s.working);
    assert!(!s.on_break);
    assert_eq!(s.elapsed, 0);
    assert_eq!(s.generation, 1);
    assert_eq!(out.start_ticker, Some(1));
    assert_eq!(out.commands, vec![SinkCommand::SetControlEnabled(Control::Break, true)]);
}

#[test]
fn attendance_toggle_ends_a_session() {
    let mut s = SessionState::new();
    s.apply_event(Event::AttendanceToggle);
    let out = s.apply_event(Event::AttendanceToggle);
    assert!(!s.working);
    assert!(!s.on_break);
    assert_eq!(s.elapsed, 0);
    assert_eq!(s.generation, 1);
    assert_eq!(out.start_ticker, None);
    assert_eq!(
        out.commands,
        vec![
            SinkCommand::SetLabel(Label::Clear),
            SinkCommand::SetControlEnabled(Control::Break, false),
        ]
    );
}

#[test]
fn immediate_double_toggle_leaves_nothing_elapsed() {
    let mut s = SessionState::new();
    s.apply_event(Event::AttendanceToggle);
    s.apply_event(Event::AttendanceToggle);
    assert!(!s.working);
    assert_eq!(s.elapsed, 0);
}

#[test]
fn break_toggle_while_idle_is_a_noop() {
    let mut s = SessionState::new();
    let out = s.apply_event(Event::BreakToggle);
    assert_eq!(s, SessionState::new());
    assert!(out.commands.is_empty());
    assert_eq!(out.start_ticker, None);
}

#[test]
fn break_toggle_enters_and_leaves_a_break() {
    let mut s = SessionState::new();
    s.apply_event(Event::AttendanceToggle);
    let on = s.apply_event(Event::BreakToggle);
    assert!(s.working);
    assert!(s.on_break);
    assert_eq!(on.start_ticker, None);
    assert_eq!(
        on.commands,
        vec![
            SinkCommand::SetLabel(Label::OnBreak),
            SinkCommand::SetControlEnabled(Control::Attendance, false),
        ]
    );
    let off = s.apply_event(Event::BreakToggle);
    assert!(s.working);
    assert!(!s.on_break);
    assert_eq!(off.start_ticker, None);
    assert_eq!(off.commands, vec![SinkCommand::SetControlEnabled(Control::Attendance, true)]);
}

#[test]
fn primary_activation_toggles_attendance_when_not_on_break() {
    let mut s = SessionState::new();
    let out = s.apply_event(Event::PrimaryActivation);
    assert!(s.working);
    assert_eq!(out.start_ticker, Some(1));
    let out = s.apply_event(Event::PrimaryActivation);
    assert!(!s.working);
    assert_eq!(out.start_ticker, None);
}

#[test]
fn primary_activation_ends_a_break() {
    let mut s = SessionState::new();
    s.apply_event(Event::AttendanceToggle);
    s.apply_event(Event::BreakToggle);
    assert!(s.on_break);
    let out = s.apply_event(Event::PrimaryActivation);
    assert!(s.working);
    assert!(!s.on_break);
    assert_eq!(out.start_ticker, None);
    assert_eq!(out.commands, vec![SinkCommand::SetControlEnabled(Control::Attendance, true)]);
}

#[test]
fn no_second_ticker_from_any_following_event() {
    for second in [Event::AttendanceToggle, Event::BreakToggle, Event::PrimaryActivation] {
        let mut s = SessionState::new();
        let first = s.apply_event(Event::AttendanceToggle);
        assert_eq!(first.start_ticker, Some(1));
        let out = s.apply_event(second);
        assert_eq!(out.start_ticker, None);
    }
}

#[test]
fn each_session_gets_a_fresh_generation() {
    let mut s = SessionState::new();
    let a = s.apply_event(Event::AttendanceToggle);
    s.apply_event(Event::AttendanceToggle);
    let b = s.apply_event(Event::AttendanceToggle);
    assert_eq!(a.start_ticker, Some(1));
    assert_eq!(b.start_ticker, Some(2));
}

#[test]
fn ticks_advance_elapsed_once_per_interval() {
    let mut s = SessionState::new();
    let out = s.apply_event(Event::AttendanceToggle);
    let gen = out.start_ticker.unwrap();
    for k in 1..=10u64 {
        assert_eq!(tick(&mut s, gen), TickOutcome::Advanced(k));
    }
    assert_eq!(s.elapsed, 10);
}

#[test]
fn break_freezes_elapsed() {
    let mut s = SessionState::new();
    let gen = s.apply_event(Event::AttendanceToggle).start_ticker.unwrap();
    tick(&mut s, gen);
    tick(&mut s, gen);
    s.apply_event(Event::BreakToggle);
    for _ in 0..5 {
        assert_eq!(tick(&mut s, gen), TickOutcome::Frozen);
    }
    assert_eq!(s.elapsed, 2);
    s.apply_event(Event::BreakToggle);
    assert_eq!(tick(&mut s, gen), TickOutcome::Advanced(3));
}

#[test]
fn ended_session_stops_the_ticker_without_updates() {
    let mut s = SessionState::new();
    let gen = s.apply_event(Event::AttendanceToggle).start_ticker.unwrap();
    tick(&mut s, gen);
    s.apply_event(Event::AttendanceToggle);
    let before = s;
    for _ in 0..3 {
        assert_eq!(tick(&mut s, gen), TickOutcome::Stop);
        assert_eq!(s, before);
    }
}

#[test]
fn superseded_ticker_stops_even_while_working() {
    let mut s = SessionState::new();
    let old_gen = s.apply_event(Event::AttendanceToggle).start_ticker.unwrap();
    s.apply_event(Event::AttendanceToggle);
    let new_gen = s.apply_event(Event::AttendanceToggle).start_ticker.unwrap();
    assert_ne!(old_gen, new_gen);
    assert_eq!(tick(&mut s, old_gen), TickOutcome::Stop);
    assert_eq!(tick(&mut s, new_gen), TickOutcome::Advanced(1));
}

#[test]
fn full_session_scenario_displays_one_to_five() {
    let mut s = SessionState::new();
    let gen = s.apply_event(Event::AttendanceToggle).start_ticker.unwrap();
    let mut displayed: Vec<u64> = Vec::new();
    let mut observe = |s: &mut SessionState| match tick(s, gen) {
        TickOutcome::Advanced(n) => displayed.push(n),
        TickOutcome::Frozen | TickOutcome::Stop => {},
    };
    for _ in 0..3 {
        observe(&mut s);
    }
    s.apply_event(Event::BreakToggle);
    for _ in 0..5 {
        observe(&mut s);
    }
    s.apply_event(Event::BreakToggle);
    for _ in 0..2 {
        observe(&mut s);
    }
    s.apply_event(Event::AttendanceToggle);
    for _ in 0..3 {
        observe(&mut s);
    }
    assert_eq!(displayed, vec![1, 2, 3, 4, 5]);
}

#[test]
fn labels_render_to_sink_text() {
    assert_eq!(render_label(Label::Clear), "");
    assert_eq!(render_label(Label::OnBreak), "on break");
    assert_eq!(render_label(Label::Elapsed(0)), "00:00:00");
    assert_eq!(render_label(Label::Elapsed(3661)), "01:01:01");
}
