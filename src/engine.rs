//! The countdown engine: timer state, and the state machine that turns
//! ticks and notification outcomes into display and completion actions.

use vstd::prelude::*;
use crate::text::{format_clock, format_seconds, format_hms, hms_text};

verus! {

/// The timer's settings and remaining time, in whole seconds.
#[derive(Clone, Copy, Debug, PartialEq, Eq, Structural)]
pub struct InternalState {
    pub time: u64,
    pub no_stdout: bool,
    pub suppress_notifications: bool,
}

/// The countdown line for `t` seconds left: carriage return, `HH:MM:SS`, and a
/// space that clears what a longer line left behind.
pub open spec fn render_line(t: nat) -> Seq<char> {
    seq!['\r'] + format_hms(t) + seq![' ']
}

/// The completion message for a clock reading.
pub open spec fn summary_text(clock: Seq<char>) -> Seq<char> {
    "Timer completed at "@ + clock
}

/// A wall-clock reading as `HH:MM:SS`.
pub open spec fn is_clock_text(s: Seq<char>) -> bool {
    exists|h: nat, m: nat, sec: nat| h < 24 && m < 60 && sec < 60 && s == hms_text(h, m, sec)
}

/// Relies on `chrono::Local::now` and `chrono::Timelike::{hour, minute, second}`:
/// the local wall-clock time, with hour in 0..=23, minute and second in 0..=59.
#[verifier::external_body]
fn local_clock() -> (r: (u32, u32, u32))
    ensures
        r.0 < 24,
        r.1 < 60,
        r.2 < 60,
{
    let now = chrono::Local::now();
    (chrono::Timelike::hour(&now), chrono::Timelike::minute(&now), chrono::Timelike::second(&now))
}

impl InternalState {
    /// Takes one second off the remaining time and returns the line that shows it.
    pub fn update_time(&mut self) -> (r: String)
        requires
            old(self).time > 0,
        ensures
            final(self).time == old(self).time - 1,
            final(self).no_stdout == old(self).no_stdout,
            final(self).suppress_notifications == old(self).suppress_notifications,
            r@ == render_line(final(self).time as nat),
    {
        proof {
            reveal_strlit("\r");
            reveal_strlit(" ");
        }
        self.time = self.time - 1;
        let mut line = String::from_str("\r");
        format_seconds(&mut line, self.time);
        line.append(" ");
        assert(line@ =~= render_line(self.time as nat));
        line
    }

    /// Whether no time is left.
    pub fn is_done(&self) -> (r: bool)
        ensures
            r == (self.time == 0),
    {
        self.time == 0
    }

    /// `t` seconds as `HH:MM:SS`, each field at least two digits wide.
    pub fn format_time(t: u64) -> (r: String)
        ensures
            r@ == format_hms(t as nat),
    {
        let mut o = String::new();
        format_seconds(&mut o, t);
        assert(o@ =~= format_hms(t as nat));
        o
    }

    /// The local wall-clock time as `HH:MM:SS`: hour, minute and second.
    pub fn current_time() -> (r: String)
        ensures
            is_clock_text(r@),
    {
        let (h, m, s) = local_clock();
        let r = format_clock(h, m, s);
        assert(r@ == hms_text(h as nat, m as nat, s as nat));
        r
    }
}

/// The text of the completion notification.
pub fn completion_summary(clock: &str) -> (r: String)
    ensures
        r@ == summary_text(clock@),
{
    let mut r = String::from_str("Timer completed at ");
    r.append(clock);
    r
}

/// The completion line for the output stream; the carriage return overwrites
/// the countdown line.
pub fn completion_line(clock: &str) -> (r: String)
    ensures
        r@ == seq!['\r'] + summary_text(clock@),
{
    proof {
        reveal_strlit("\r");
    }
    let mut r = String::from_str("\r");
    r.append(completion_summary(clock).as_str());
    assert(r@ =~= seq!['\r'] + summary_text(clock@));
    r
}

/// Where a run stands.
#[derive(Clone, Copy, Debug, PartialEq, Eq, Structural)]
pub enum Phase {
    /// Counting down; waiting for ticks.
    Counting,
    /// The desktop notification has been requested; waiting for its outcome.
    Notifying,
    /// The notification failed and the fallback line has been requested.
    Fallback,
    /// The completion line has been requested.
    Reporting,
    /// The run is over.
    Finished,
}

/// What the driver hands to the engine.
#[derive(Clone, Copy, Debug, PartialEq, Eq, Structural)]
pub enum Event {
    /// One second has elapsed.
    Tick,
    /// The previous action was carried out (or the run is starting).
    Ready,
    /// The outcome of showing the notification: `true` if it was shown.
    Notified(bool),
}

/// What the engine asks the driver to do next.
#[derive(Debug)]
pub enum Action {
    /// Wait for the next tick, then hand back `Tick`.
    AwaitTick,
    /// Write this line without a line break and flush, then hand back `Ready`.
    Render(String),
    /// Show the completion notification, then hand back `Notified`.
    Notify,
    /// Print the completion line, then hand back `Ready`.
    Print,
    /// The run is over.
    Stop,
}

/// An [`Action`] with its text as a sequence of characters.
pub enum ActionView {
    AwaitTick,
    Render(Seq<char>),
    Notify,
    Print,
    Stop,
}

impl View for Action {
    type V = ActionView;

    open spec fn view(&self) -> ActionView {
        match self {
            Action::AwaitTick => ActionView::AwaitTick,
            Action::Render(line) => ActionView::Render(line@),
            Action::Notify => ActionView::Notify,
            Action::Print => ActionView::Print,
            Action::Stop => ActionView::Stop,
        }
    }
}

/// The countdown engine: the timer state and where the run stands.
#[derive(Clone, Copy, Debug, PartialEq, Eq, Structural)]
pub struct Engine {
    pub state: InternalState,
    pub phase: Phase,
}

/// After the notification step: the completion line if output is wanted, else the end.
pub open spec fn report(s: InternalState) -> (Engine, ActionView) {
    if !s.no_stdout {
        (Engine { state: s, phase: Phase::Reporting }, ActionView::Print)
    } else {
        (Engine { state: s, phase: Phase::Finished }, ActionView::Stop)
    }
}

/// The first step of the completion protocol.
pub open spec fn begin_completion(s: InternalState) -> (Engine, ActionView) {
    if !s.suppress_notifications {
        (Engine { state: s, phase: Phase::Notifying }, ActionView::Notify)
    } else {
        report(s)
    }
}

/// The events that the engine waits for in each phase.
pub open spec fn is_expected(e: Engine, ev: Event) -> bool {
    match e.phase {
        Phase::Counting => ev == Event::Ready || (ev == Event::Tick && e.state.time > 0),
        Phase::Notifying => ev is Notified,
        Phase::Fallback | Phase::Reporting => ev == Event::Ready,
        Phase::Finished => true,
    }
}

/// One transition: the next engine and the action it asks for.
pub open spec fn next(e: Engine, ev: Event) -> (Engine, ActionView) {
    let s = e.state;
    match e.phase {
        Phase::Counting => match ev {
            Event::Tick => {
                let t = (s.time - 1) as u64;
                (
                    Engine { state: InternalState { time: t, ..s }, phase: Phase::Counting },
                    ActionView::Render(render_line(t as nat)),
                )
            },
            Event::Ready => if s.time == 0 {
                begin_completion(s)
            } else {
                (e, ActionView::AwaitTick)
            },
            Event::Notified(_) => (e, ActionView::Stop),
        },
        Phase::Notifying => match ev {
            Event::Notified(true) => report(s),
            Event::Notified(false) => (
                Engine { state: s, phase: Phase::Fallback },
                ActionView::Print,
            ),
            _ => (e, ActionView::Stop),
        },
        Phase::Fallback => report(s),
        Phase::Reporting => (Engine { state: s, phase: Phase::Finished }, ActionView::Stop),
        Phase::Finished => (e, ActionView::Stop),
    }
}

impl Engine {
    /// A run that starts with `state.time` seconds left.
    pub fn new(state: InternalState) -> (r: Engine)
        ensures
            r == (Engine { state, phase: Phase::Counting }),
    {
        Engine { state, phase: Phase::Counting }
    }

    /// Whether the engine waits for `ev` now.
    pub fn expects(&self, ev: Event) -> (r: bool)
        ensures
            r == is_expected(*self, ev),
    {
        match self.phase {
            Phase::Counting => match ev {
                Event::Ready => true,
                Event::Tick => self.state.time > 0,
                Event::Notified(_) => false,
            },
            Phase::Notifying => match ev {
                Event::Notified(_) => true,
                _ => false,
            },
            Phase::Fallback | Phase::Reporting => match ev {
                Event::Ready => true,
                _ => false,
            },
            Phase::Finished => true,
        }
    }

    fn report(&mut self) -> (a: Action)
        ensures
            (*final(self), a@) == report(old(self).state),
    {
        if !self.state.no_stdout {
            self.phase = Phase::Reporting;
            Action::Print
        } else {
            self.phase = Phase::Finished;
            Action::Stop
        }
    }

    fn begin_completion(&mut self) -> (a: Action)
        ensures
            (*final(self), a@) == begin_completion(old(self).state),
    {
        if !self.state.suppress_notifications {
            self.phase = Phase::Notifying;
            Action::Notify
        } else {
            self.report()
        }
    }

    /// Consumes one event and says what to do next.
    pub fn step(&mut self, ev: Event) -> (a: Action)
        requires
            is_expected(*old(self), ev),
        ensures
            (*final(self), a@) == next(*old(self), ev),
    {
        match self.phase {
            Phase::Counting => match ev {
                Event::Tick => Action::Render(self.state.update_time()),
                Event::Ready => if self.state.is_done() {
                    self.begin_completion()
                } else {
                    Action::AwaitTick
                },
                Event::Notified(_) => Action::Stop,
            },
            Phase::Notifying => match ev {
                Event::Notified(true) => self.report(),
                Event::Notified(false) => {
                    self.phase = Phase::Fallback;
                    Action::Print
                },
                _ => Action::Stop,
            },
            Phase::Fallback => self.report(),
            Phase::Reporting => {
                self.phase = Phase::Finished;
                Action::Stop
            },
            Phase::Finished => Action::Stop,
        }
    }
}

} // verus!
