//! Whole runs of the engine under a driver that follows its protocol, and
//! what every such run looks like.

use vstd::prelude::*;
use crate::engine::{
    begin_completion, is_expected, next, render_line, report, ActionView, Engine, Event,
    InternalState, Phase,
};

verus! {

/// What a driver hands back after carrying out `a`, when showing the
/// notification comes out as `shown`.
pub open spec fn response(a: ActionView, shown: bool) -> Event {
    match a {
        ActionView::AwaitTick => Event::Tick,
        ActionView::Notify => Event::Notified(shown),
        _ => Event::Ready,
    }
}

/// The actions of a run from `e` with first event `ev`, at most `fuel` of
/// them; it ends at `Stop`, or early at an event the engine does not expect.
pub open spec fn run(e: Engine, ev: Event, shown: bool, fuel: nat) -> Seq<ActionView>
    decreases fuel,
{
    if fuel == 0 || !is_expected(e, ev) {
        seq![]
    } else {
        let (e2, a) = next(e, ev);
        if a is Stop {
            seq![a]
        } else {
            seq![a] + run(e2, response(a, shown), shown, (fuel - 1) as nat)
        }
    }
}

/// The run of a timer that starts from `s`, with room for every action.
pub open spec fn whole_run(s: InternalState, shown: bool) -> Seq<ActionView> {
    run(Engine { state: s, phase: Phase::Counting }, Event::Ready, shown, (2 * s.time + 4) as nat)
}

/// `n` seconds of countdown: wait for a tick, then show the time left.
pub open spec fn countdown(n: nat) -> Seq<ActionView>
    decreases n,
{
    if n == 0 {
        seq![]
    } else {
        seq![ActionView::AwaitTick, ActionView::Render(render_line((n - 1) as nat))] + countdown(
            (n - 1) as nat,
        )
    }
}

/// The optional completion line, then the end.
pub open spec fn closing(s: InternalState) -> Seq<ActionView> {
    (if !s.no_stdout {
        seq![ActionView::Print]
    } else {
        seq![]
    }) + seq![ActionView::Stop]
}

/// The completion protocol: the notification unless suppressed, with the
/// fallback line if it was not shown, then the completion line unless
/// output is suppressed, then the end.
pub open spec fn completion(s: InternalState, shown: bool) -> Seq<ActionView> {
    (if !s.suppress_notifications {
        seq![ActionView::Notify] + (if shown {
            seq![]
        } else {
            seq![ActionView::Print]
        })
    } else {
        seq![]
    }) + closing(s)
}

proof fn lemma_run_from_report(e: Engine, ev: Event, shown: bool, fuel: nat)
    requires
        is_expected(e, ev),
        next(e, ev) == report(e.state),
        fuel >= 2,
    ensures
        run(e, ev, shown, fuel) == closing(e.state),
{
    let s = e.state;
    if !s.no_stdout {
        let e2 = Engine { state: s, phase: Phase::Reporting };
        assert(run(e2, Event::Ready, shown, (fuel - 1) as nat) == seq![ActionView::Stop]);
        assert(run(e, ev, shown, fuel) =~= closing(s));
    } else {
        assert(run(e, ev, shown, fuel) =~= closing(s));
    }
}

proof fn lemma_run_from_completion(e: Engine, ev: Event, shown: bool, fuel: nat)
    requires
        is_expected(e, ev),
        next(e, ev) == begin_completion(e.state),
        fuel >= 4,
    ensures
        run(e, ev, shown, fuel) == completion(e.state, shown),
{
    let s = e.state;
    if !s.suppress_notifications {
        let e1 = Engine { state: s, phase: Phase::Notifying };
        let f1 = (fuel - 1) as nat;
        if shown {
            lemma_run_from_report(e1, Event::Notified(true), shown, f1);
        } else {
            let e2 = Engine { state: s, phase: Phase::Fallback };
            lemma_run_from_report(e2, Event::Ready, shown, (f1 - 1) as nat);
            assert(run(e1, Event::Notified(false), shown, f1) =~= seq![ActionView::Print]
                + closing(s));
        }
        assert(run(e, ev, shown, fuel) =~= completion(s, shown));
    } else {
        lemma_run_from_report(e, ev, shown, fuel);
        assert(completion(s, shown) =~= closing(s));
    }
}

proof fn lemma_run_from_counting(s: InternalState, shown: bool, fuel: nat)
    requires
        fuel >= 2 * s.time + 4,
    ensures
        run(Engine { state: s, phase: Phase::Counting }, Event::Ready, shown, fuel)
            == countdown(s.time as nat) + completion(s, shown),
    decreases s.time,
{
    let e = Engine { state: s, phase: Phase::Counting };
    if s.time == 0 {
        lemma_run_from_completion(e, Event::Ready, shown, fuel);
        assert(countdown(0) + completion(s, shown) =~= completion(s, shown));
    } else {
        let t = (s.time - 1) as u64;
        let s2 = InternalState { time: t, ..s };
        let e2 = Engine { state: s2, phase: Phase::Counting };
        lemma_run_from_counting(s2, shown, (fuel - 2) as nat);
        assert(completion(s2, shown) == completion(s, shown));
        assert(run(e, Event::Tick, shown, (fuel - 1) as nat) == seq![
            ActionView::Render(render_line(t as nat)),
        ] + run(e2, Event::Ready, shown, (fuel - 2) as nat));
        assert(run(e, Event::Ready, shown, fuel) =~= countdown(s.time as nat) + completion(
            s,
            shown,
        ));
    }
}

proof fn lemma_countdown_index(n: nat, k: int)
    requires
        1 <= k <= n,
    ensures
        countdown(n).len() == 2 * n,
        countdown(n)[2 * k - 2] is AwaitTick,
        countdown(n)[2 * k - 1] == ActionView::Render(render_line((n - k) as nat)),
    decreases n,
{
    lemma_countdown_len(n);
    if k > 1 {
        lemma_countdown_index((n - 1) as nat, k - 1);
    }
}

proof fn lemma_countdown_len(n: nat)
    ensures
        countdown(n).len() == 2 * n,
        forall|j: int|
            0 <= j < 2 * n ==> (#[trigger] countdown(n)[j] is AwaitTick || countdown(n)[j] is Render),
    decreases n,
{
    if n > 0 {
        lemma_countdown_len((n - 1) as nat);
        let c = countdown(n);
        let rest = countdown((n - 1) as nat);
        assert forall|j: int| 0 <= j < 2 * n implies (#[trigger] c[j] is AwaitTick
            || c[j] is Render) by {
            if j >= 2 {
                assert(c[j] == rest[j - 2]);
            }
        }
    }
}

/// Every run has one shape: `n` rounds of waiting for a tick and showing the
/// time left, then the completion protocol exactly once, ending the run.
/// Nothing before the completion protocol notifies or prints, and nothing in
/// it waits for a tick or renders; the run ends at its only `Stop`.
pub proof fn lemma_run_shape(s: InternalState, shown: bool)
    ensures
        whole_run(s, shown) == countdown(s.time as nat) + completion(s, shown),
        forall|j: int|
            0 <= j < 2 * s.time ==> (#[trigger] whole_run(s, shown)[j] is AwaitTick
                || whole_run(s, shown)[j] is Render),
        forall|j: int|
            2 * s.time <= j < whole_run(s, shown).len() ==> (#[trigger] whole_run(s, shown)[j] is Notify
                || whole_run(s, shown)[j] is Print || whole_run(s, shown)[j] is Stop),
        whole_run(s, shown).last() is Stop,
        forall|j: int| 0 <= j < whole_run(s, shown).len() - 1 ==> !(#[trigger] whole_run(s, shown)[j] is Stop),
{
    lemma_run_from_counting(s, shown, (2 * s.time + 4) as nat);
    lemma_countdown_len(s.time as nat);
    let w = whole_run(s, shown);
    let n = 2 * s.time;
    assert forall|j: int| 0 <= j < n implies (#[trigger] w[j] is AwaitTick || w[j] is Render) by {
        assert(w[j] == countdown(s.time as nat)[j]);
    }
    assert forall|j: int| n <= j < w.len() implies (#[trigger] w[j] is Notify || w[j] is Print
        || w[j] is Stop) by {
        assert(w[j] == completion(s, shown)[j - n]);
    }
    assert forall|j: int| 0 <= j < w.len() - 1 implies !(#[trigger] w[j] is Stop) by {
        if j >= n {
            assert(w[j] == completion(s, shown)[j - n]);
        }
    }
}

/// Counting down from `n >= 1` seconds takes exactly `n` ticks: the `k`-th
/// tick is followed by the display of `n - k` seconds, and after the `n`-th
/// the run neither waits for a tick nor renders again.
pub proof fn lemma_countdown_displays(s: InternalState, shown: bool)
    requires
        s.time >= 1,
    ensures
        forall|k: int|
            1 <= k <= s.time ==> #[trigger] whole_run(s, shown)[2 * k - 2] is AwaitTick
                && whole_run(s, shown)[2 * k - 1] == ActionView::Render(
                render_line((s.time - k) as nat),
            ),
        forall|j: int|
            2 * s.time <= j < whole_run(s, shown).len() ==> !(#[trigger] whole_run(s, shown)[j] is AwaitTick)
                && !(whole_run(s, shown)[j] is Render),
{
    lemma_run_shape(s, shown);
    let w = whole_run(s, shown);
    assert forall|k: int| 1 <= k <= s.time implies #[trigger] w[2 * k - 2] is AwaitTick && w[2 * k
        - 1] == ActionView::Render(render_line((s.time - k) as nat)) by {
        lemma_countdown_index(s.time as nat, k);
        assert(w[2 * k - 2] == countdown(s.time as nat)[2 * k - 2]);
        assert(w[2 * k - 1] == countdown(s.time as nat)[2 * k - 1]);
    }
    assert forall|j: int| 2 * s.time <= j < w.len() implies !(#[trigger] w[j] is AwaitTick) && !(
    w[j] is Render) by {
        assert(w[j] is Notify || w[j] is Print || w[j] is Stop);
    }
}

/// A timer that starts at zero waits for no tick and renders nothing: its
/// run is the completion protocol alone.
pub proof fn lemma_zero_start(s: InternalState, shown: bool)
    requires
        s.time == 0,
    ensures
        whole_run(s, shown) == completion(s, shown),
{
    lemma_run_shape(s, shown);
    assert(countdown(0) + completion(s, shown) =~= completion(s, shown));
}

/// With notifications suppressed and output wanted, the run ends with one
/// completion line and no notification, whatever a notification would do.
pub proof fn lemma_quiet_notifications(s: InternalState, shown: bool)
    requires
        s.suppress_notifications,
        !s.no_stdout,
    ensures
        whole_run(s, shown).skip(2 * s.time) == seq![ActionView::Print, ActionView::Stop],
{
    lemma_run_shape(s, shown);
    lemma_countdown_len(s.time as nat);
    assert(whole_run(s, shown).skip(2 * s.time) =~= completion(s, shown));
    assert(completion(s, shown) =~= seq![ActionView::Print, ActionView::Stop]);
}

/// With notifications wanted and output suppressed, the run ends with one
/// notification attempt, and one fallback line exactly when it was not shown.
pub proof fn lemma_notification_fallback(s: InternalState, shown: bool)
    requires
        !s.suppress_notifications,
        s.no_stdout,
    ensures
        whole_run(s, shown).skip(2 * s.time) == (if shown {
            seq![ActionView::Notify, ActionView::Stop]
        } else {
            seq![ActionView::Notify, ActionView::Print, ActionView::Stop]
        }),
{
    lemma_run_shape(s, shown);
    lemma_countdown_len(s.time as nat);
    assert(whole_run(s, shown).skip(2 * s.time) =~= completion(s, shown));
    if shown {
        assert(completion(s, shown) =~= seq![ActionView::Notify, ActionView::Stop]);
    } else {
        assert(completion(s, shown) =~= seq![ActionView::Notify, ActionView::Print, ActionView::Stop]);
    }
}

} // verus!
