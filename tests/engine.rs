use timer::{Action, Engine, Event, InternalState, Phase};

fn config(time: u64, no_stdout: bool, suppress_notifications: bool) -> InternalState {
    InternalState { time, no_stdout, suppress_notifications }
}

/// Drives a run as the program does, with notifications coming out as `shown`,
/// and records each action.
fn drive(state: InternalState, shown: bool) -> Vec<String> {
    let mut engine = Engine::new(state);
    let mut event = Event::Ready;
    let mut out = Vec::new();
    for _ in 0..1000 {
        assert!(engine.expects(event));
        let action = engine.step(event);
        event = match action {
            Action::AwaitTick => {
                out.push("tick".to_string());
                Event::Tick
            }
            Action::Render(line) => {
                out.push(line);
                Event::Ready
            }
            Action::Notify => {
                out.push("notify".to_string());
                Event::Notified(shown)
            }
            Action::Print => {
                out.push("print".to_string());
                Event::Ready
            }
            Action::Stop => {
                out.push("stop".to_string());
                return out;
            }
        };
    }
    panic!("run did not stop");
}

#[test]
fn update_time_decrements_and_renders() {
    let mut s = config(61, false, false);
    let line = s.update_time();
    assert_eq!(s.time, 60);
    assert_eq!(line, "\r00:01:00 ");
    assert!(!s.no_stdout && !s.suppress_notifications);
}

#[test]
fn is_done_at_zero() {
    assert!(config(0, false, false).is_done());
    assert!(!config(1, false, false).is_done());
}

#[test]
fn countdown_renders_each_second() {
    let run = drive(config(3, false, true), true);
    assert_eq!(
        run,
        vec!["tick", "\r00:00:02 ", "tick", "\r00:00:01 ", "tick", "\r00:00:00 ", "print", "stop"]
    );
}

#[test]
fn zero_start_completes_without_ticks() {
    assert_eq!(drive(config(0, false, false), true), vec!["notify", "print", "stop"]);
    assert_eq!(drive(config(0, true, true), true), vec!["stop"]);
}

#[test]
fn completion_fires_once_for_any_length() {
    for n in [0u64, 1, 2, 5, 70] {
        let run = drive(config(n, false, false), false);
        let notifies = run.iter().filter(|a| *a == "notify").count();
        let prints = run.iter().filter(|a| *a == "print").count();
        let ticks = run.iter().filter(|a| *a == "tick").count();
        assert_eq!(notifies, 1);
        assert_eq!(prints, 2);
        assert_eq!(ticks as u64, n);
        assert_eq!(run.last().unwrap(), "stop");
        assert_eq!(run.len() as u64, 2 * n + 4);
    }
}

#[test]
fn suppressed_notifications_print_once() {
    for shown in [true, false] {
        let run = drive(config(2, false, true), shown);
        assert_eq!(&run[4..], &["print", "stop"]);
    }
}

#[test]
fn failed_notification_falls_back_despite_quiet() {
    assert_eq!(&drive(config(1, true, false), false)[2..], &["notify", "print", "stop"]);
    assert_eq!(&drive(config(1, true, false), true)[2..], &["notify", "stop"]);
}

#[test]
fn shown_notification_and_output_both_run() {
    assert_eq!(&drive(config(1, false, false), true)[2..], &["notify", "print", "stop"]);
}

#[test]
fn unexpected_events_are_reported() {
    let e = Engine::new(config(0, false, false));
    assert!(!e.expects(Event::Tick));
    assert!(!e.expects(Event::Notified(true)));
    assert!(e.expects(Event::Ready));
    let mut e = Engine::new(config(1, false, false));
    e.step(Event::Ready);
    e.step(Event::Tick);
    e.step(Event::Ready);
    assert_eq!(e.phase, Phase::Notifying);
    assert!(!e.expects(Event::Ready));
    assert!(e.expects(Event::Notified(false)));
}
