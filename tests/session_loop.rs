use sysmon::controller::{Action, Controller, Event, Fault, Stage, TICK_MS};
use sysmon::session::TerminalSession;

/// A scripted stand-in for the metrics provider and the terminal.
struct Fake {
    refresh_fails_on: Option<usize>,
    keys: Vec<Option<char>>,
    refreshes: usize,
    draws: usize,
    polls: usize,
    restores: usize,
    clock_ms: u64,
}

impl Fake {
    fn new(refresh_fails_on: Option<usize>, keys: Vec<Option<char>>) -> Fake {
        Fake { refresh_fails_on, keys, refreshes: 0, draws: 0, polls: 0, restores: 0, clock_ms: 0 }
    }

    /// Drives the controller until it exits; gives the exit's fault.
    fn run(&mut self, ticks: usize) -> Option<Fault> {
        let mut c = Controller::new(self.clock_ms);
        let mut session = TerminalSession::new();
        session.activate();
        let mut action = c.step(Event::Entered);
        for _ in 0..(ticks * 4 + 4) {
            let event = match action {
                Action::Refresh => {
                    self.refreshes += 1;
                    if Some(self.refreshes) == self.refresh_fails_on {
                        Event::RefreshFailed
                    } else {
                        Event::Refreshed
                    }
                }
                Action::Draw => {
                    self.draws += 1;
                    Event::Drawn { now_ms: self.clock_ms }
                }
                Action::Poll { timeout_ms } => {
                    let key = if self.polls < self.keys.len() { self.keys[self.polls] } else { None };
                    self.polls += 1;
                    if key.is_none() {
                        self.clock_ms += timeout_ms;
                    }
                    Event::Input { key, now_ms: self.clock_ms }
                }
                Action::Restore => {
                    if session.release() {
                        self.restores += 1;
                    }
                    Event::Restored { ok: true }
                }
                Action::Exit { fault } => {
                    // a defensive second cleanup does nothing
                    assert!(!session.release());
                    assert_eq!(c.stage, Stage::Finished);
                    return fault;
                }
                Action::Nothing => panic!("event out of turn"),
            };
            action = c.step(event);
        }
        panic!("the loop did not end");
    }
}

#[test]
fn quit_after_first_tick() {
    let mut fake = Fake::new(None, vec![Some('q'), None, None]);
    let outcome = fake.run(3);
    assert_eq!(outcome, None);
    assert_eq!(fake.draws, 1);
    assert_eq!(fake.restores, 1);
}

#[test]
fn refresh_failure_on_second_tick() {
    let mut fake = Fake::new(Some(2), vec![None, None, None]);
    let outcome = fake.run(3);
    assert_eq!(outcome, Some(Fault::Refresh));
    assert_eq!(fake.refreshes, 2);
    assert_eq!(fake.draws, 1);
    assert_eq!(fake.restores, 1);
}

#[test]
fn other_keys_are_ignored() {
    let mut fake = Fake::new(None, vec![Some('x'), Some('Q'), None, Some('q')]);
    assert_eq!(fake.run(5), None);
    assert_eq!(fake.draws, 4);
    assert_eq!(fake.restores, 1);
}

#[test]
fn activation_failure_exits_without_restore() {
    let mut c = Controller::new(0);
    assert_eq!(c.step(Event::EnterFailed), Action::Exit { fault: Some(Fault::Activation) });
    assert_eq!(c.step(Event::Restored { ok: true }), Action::Nothing);
    let mut session = TerminalSession::new();
    assert!(!session.release());
}

#[test]
fn draw_and_input_failures_restore_once() {
    let mut c = Controller::new(0);
    c.step(Event::Entered);
    c.step(Event::Refreshed);
    assert_eq!(c.step(Event::DrawFailed), Action::Restore);
    assert_eq!(c.step(Event::DrawFailed), Action::Nothing);
    assert_eq!(c.step(Event::Restored { ok: false }), Action::Exit { fault: Some(Fault::Draw) });

    let mut c = Controller::new(0);
    c.step(Event::Entered);
    c.step(Event::Refreshed);
    c.step(Event::Drawn { now_ms: 10 });
    assert_eq!(c.step(Event::InputFailed), Action::Restore);
    assert_eq!(c.step(Event::Restored { ok: true }), Action::Exit { fault: Some(Fault::Input) });
}

#[test]
fn failed_restoration_is_reported() {
    let mut c = Controller::new(0);
    c.step(Event::Entered);
    c.step(Event::Refreshed);
    c.step(Event::Drawn { now_ms: 0 });
    assert_eq!(c.step(Event::Input { key: Some('q'), now_ms: 5 }), Action::Restore);
    assert_eq!(c.step(Event::Restored { ok: false }), Action::Exit { fault: Some(Fault::Restore) });
}

#[test]
fn poll_timeout_counts_down_to_zero() {
    let mut c = Controller::new(1000);
    c.step(Event::Entered);
    c.step(Event::Refreshed);
    assert_eq!(c.step(Event::Drawn { now_ms: 1250 }), Action::Poll { timeout_ms: 750 });
    assert_eq!(c.timeout_ms(1000), TICK_MS);
    assert_eq!(c.timeout_ms(2000), 0);
    assert_eq!(c.timeout_ms(5000), 0);
    assert_eq!(c.timeout_ms(500), TICK_MS);
}

#[test]
fn tick_reference_moves_after_a_full_interval() {
    let mut c = Controller::new(0);
    c.step(Event::Entered);
    c.step(Event::Refreshed);
    c.step(Event::Drawn { now_ms: 100 });
    // an ignored key before the deadline keeps the reference
    assert_eq!(c.step(Event::Input { key: Some('x'), now_ms: 400 }), Action::Refresh);
    assert_eq!(c.last_tick_ms, 0);
    c.step(Event::Refreshed);
    assert_eq!(c.step(Event::Drawn { now_ms: 450 }), Action::Poll { timeout_ms: 550 });
    assert_eq!(c.step(Event::Input { key: None, now_ms: 1003 }), Action::Refresh);
    assert_eq!(c.last_tick_ms, 1003);
}

#[test]
fn release_twice_is_harmless() {
    let mut s = TerminalSession::new();
    s.activate();
    assert!(s.release());
    assert!(!s.release());
    assert!(!s.active);
}
