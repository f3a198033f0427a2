//! Automatic showing and hiding from the focus reports of several sources.
//! Times are milliseconds of a monotonic clock.
use vstd::prelude::*;

use crate::input_method::TextInputVisibility;

verus! {

/// How long the keyboard stays after the last text field lost focus, so that
/// a focus moving between fields (or between sources) does not flicker.
pub const HIDE_DELAY_MS: u64 = 180;

/// A protocol's Deactivate must not hide a field detected by another source.
#[derive(Clone, Copy, Debug, PartialEq, Eq)]
pub struct AutoVisibility {
    /// Whether each source (0: Wayland text input, 1: accessibility) reports a text field.
    pub active: (bool, bool),
    /// Whether the keyboard was shown automatically.
    pub shown: bool,
    /// When to hide, once no source reports a text field.
    pub hide_at: Option<u64>,
}

impl Default for AutoVisibility {
    fn default() -> (r: Self)
        ensures
            r == (AutoVisibility { active: (false, false), shown: false, hide_at: None }),
    {
        AutoVisibility { active: (false, false), shown: false, hide_at: None }
    }
}

/// Some source reports a text field.
pub open spec fn any_active(v: AutoVisibility) -> bool {
    v.active.0 || v.active.1
}

/// The state after `source` reported `visibility` at `now`.
pub open spec fn updated(
    v: AutoVisibility,
    source: usize,
    visibility: TextInputVisibility,
    now: u64,
) -> AutoVisibility {
    let show = visibility == TextInputVisibility::Show;
    let active = if source == 0 {
        (show, v.active.1)
    } else {
        (v.active.0, show)
    };
    let w = AutoVisibility { active, ..v };
    if any_active(w) {
        AutoVisibility { hide_at: None, ..w }
    } else if w.shown && w.hide_at is None {
        AutoVisibility { hide_at: Some((now + HIDE_DELAY_MS) as u64), ..w }
    } else {
        w
    }
}

/// The state and the decision (`Some(true)`: show, `Some(false)`: hide) of a poll at `now`.
pub open spec fn polled(v: AutoVisibility, now: u64) -> (AutoVisibility, Option<bool>) {
    if any_active(v) && !v.shown {
        (AutoVisibility { shown: true, ..v }, Some(true))
    } else if !any_active(v) && (v.hide_at matches Some(deadline) && now >= deadline) {
        (AutoVisibility { hide_at: None, shown: false, ..v }, Some(false))
    } else {
        (v, None)
    }
}

impl AutoVisibility {
    /// `source` reports whether a text field has focus.
    pub fn update(&mut self, source: usize, visibility: TextInputVisibility, now: u64)
        requires
            source < 2,
            now <= u64::MAX - HIDE_DELAY_MS,
        ensures
            *final(self) == updated(*old(self), source, visibility, now),
    {
        let show = visibility == TextInputVisibility::Show;
        if source == 0 {
            self.active.0 = show;
        } else {
            self.active.1 = show;
        }
        if self.active.0 || self.active.1 {
            self.hide_at = None;
        } else if self.shown && self.hide_at.is_none() {
            self.hide_at = Some(now + HIDE_DELAY_MS);
        }
    }

    /// Whether to show (`Some(true)`) or hide (`Some(false)`) the keyboard now.
    pub fn poll(&mut self, now: u64) -> (r: Option<bool>)
        ensures
            (*final(self), r) == polled(*old(self), now),
    {
        let show = self.active.0 || self.active.1;
        if show && !self.shown {
            self.shown = true;
            Some(true)
        } else if !show && match self.hide_at {
            Some(deadline) => now >= deadline,
            None => false,
        } {
            self.hide_at = None;
            self.shown = false;
            Some(false)
        } else {
            None
        }
    }
}

/// While another source still reports a text field, one source losing it
/// never hides the keyboard, however late the poll.
pub proof fn lemma_other_source_keeps_keyboard(
    v: AutoVisibility,
    source: usize,
    now: u64,
    later: u64,
)
    requires
        source < 2,
        if source == 0 {
            v.active.1
        } else {
            v.active.0
        },
    ensures
        polled(updated(v, source, TextInputVisibility::Hide, now), later).1 != Some(false),
{
}

/// Once no source reports a text field, a shown keyboard hides at the first
/// poll at least the hide delay later, and not before: an earlier poll
/// changes nothing.
pub proof fn lemma_focus_loss_hides_after_delay(v: AutoVisibility, source: usize, now: u64, later: u64)
    requires
        source < 2,
        v.shown,
        v.hide_at is None,
        !(if source == 0 {
            v.active.1
        } else {
            v.active.0
        }),
        now <= u64::MAX - HIDE_DELAY_MS,
    ensures
        polled(updated(v, source, TextInputVisibility::Hide, now), later).1 == (if later >= now
            + HIDE_DELAY_MS {
            Some(false)
        } else {
            None::<bool>
        }),
        later < now + HIDE_DELAY_MS ==> polled(updated(v, source, TextInputVisibility::Hide, now), later).0
            == updated(v, source, TextInputVisibility::Hide, now),
{
}

/// A text field reported before the hide delay ran out cancels the hide.
pub proof fn lemma_refocus_cancels_hide(v: AutoVisibility, source: usize, now: u64, later: u64)
    requires
        source < 2,
    ensures
        updated(v, source, TextInputVisibility::Show, now).hide_at is None,
        polled(updated(v, source, TextInputVisibility::Show, now), later).1 != Some(false),
{
}

/// One call on the visibility state: a source's report, or a poll.
pub enum VisibilityStep {
    Update { source: usize, visibility: TextInputVisibility, now: u64 },
    Poll { now: u64 },
}

/// The state after one call, and what a poll reports.
pub open spec fn step(v: AutoVisibility, s: VisibilityStep) -> (AutoVisibility, Option<bool>) {
    match s {
        VisibilityStep::Update { source, visibility, now } => (
            updated(v, source, visibility, now),
            None,
        ),
        VisibilityStep::Poll { now } => polled(v, now),
    }
}

/// The state after a sequence of calls, and the reports of its polls in order.
pub open spec fn run(v: AutoVisibility, steps: Seq<VisibilityStep>) -> (AutoVisibility, Seq<bool>)
    decreases steps.len(),
{
    if steps.len() == 0 {
        (v, Seq::empty())
    } else {
        let (w, reports) = run(v, steps.drop_last());
        let (x, report) = step(w, steps.last());
        (
            x,
            match report {
                Some(b) => reports.push(b),
                None => reports,
            },
        )
    }
}

/// A pending hide means the keyboard is shown and no source reports a field.
pub open spec fn hide_pending_only_when_shown(v: AutoVisibility) -> bool {
    v.hide_at is Some ==> v.shown && !any_active(v)
}

/// Every call keeps a pending hide tied to a shown keyboard with no text
/// field reported; the initial state has no pending hide.
pub proof fn lemma_pending_hide_invariant(v: AutoVisibility, steps: Seq<VisibilityStep>)
    requires
        hide_pending_only_when_shown(v),
    ensures
        hide_pending_only_when_shown(run(v, steps).0),
        hide_pending_only_when_shown(
            AutoVisibility { active: (false, false), shown: false, hide_at: None },
        ),
    decreases steps.len(),
{
    if steps.len() > 0 {
        lemma_pending_hide_invariant(v, steps.drop_last());
    }
}

/// The reports of the polls alternate: each one flips whether the keyboard is
/// shown, the first one to the opposite of the start. From the initial state
/// they read show, hide, show, and so on.
pub proof fn lemma_reports_alternate(v: AutoVisibility, steps: Seq<VisibilityStep>)
    requires
        hide_pending_only_when_shown(v),
    ensures
        forall|i: int|
            0 <= i < run(v, steps).1.len() ==> #[trigger] run(v, steps).1[i] == (if i % 2 == 0 {
                !v.shown
            } else {
                v.shown
            }),
        run(v, steps).0.shown == (if run(v, steps).1.len() % 2 == 1 {
            !v.shown
        } else {
            v.shown
        }),
    decreases steps.len(),
{
    if steps.len() > 0 {
        let prefix = steps.drop_last();
        lemma_reports_alternate(v, prefix);
        lemma_pending_hide_invariant(v, prefix);
        let (w, reports) = run(v, prefix);
        let (x, report) = step(w, steps.last());
        let all = run(v, steps).1;
        assert forall|i: int| 0 <= i < all.len() implies #[trigger] all[i] == (if i % 2 == 0 {
            !v.shown
        } else {
            v.shown
        }) by {
            if i < reports.len() {
                assert(all[i] == reports[i]);
            }
        }
    }
}

/// While one source keeps reporting a text field and only the other source
/// reports, no poll hides the keyboard, and the first source stays active.
pub proof fn lemma_other_source_keeps_keyboard_over_steps(
    v: AutoVisibility,
    source: usize,
    steps: Seq<VisibilityStep>,
)
    requires
        source < 2,
        if source == 0 {
            v.active.1
        } else {
            v.active.0
        },
        forall|i: int|
            0 <= i < steps.len() ==> (#[trigger] steps[i] matches VisibilityStep::Update {
                source: s,
                ..
            } ==> s == source),
    ensures
        if source == 0 {
            run(v, steps).0.active.1
        } else {
            run(v, steps).0.active.0
        },
        !run(v, steps).1.contains(false),
    decreases steps.len(),
{
    if steps.len() > 0 {
        let prefix = steps.drop_last();
        assert forall|i: int| 0 <= i < prefix.len() implies (#[trigger] prefix[i] matches VisibilityStep::Update {
            source: s,
            ..
        } ==> s == source) by {
            assert(prefix[i] == steps[i]);
        }
        lemma_other_source_keeps_keyboard_over_steps(v, source, prefix);
        assert(steps.last() == steps[steps.len() - 1]);
        let (w, reports) = run(v, prefix);
        let all = run(v, steps).1;
        assert forall|i: int| 0 <= i < all.len() implies all[i] != false by {
            if i < reports.len() {
                assert(all[i] == reports[i]);
            }
        }
    }
}

/// Hiding is delayed by exactly the hide delay: after the last text field is
/// lost at `now`, polls before `now + HIDE_DELAY_MS` report nothing and change
/// nothing, and a poll at or after it then hides the keyboard.
pub proof fn lemma_hide_is_delayed_exactly(
    v: AutoVisibility,
    source: usize,
    now: u64,
    polls: Seq<u64>,
    later: u64,
)
    requires
        source < 2,
        v.shown,
        v.hide_at is None,
        !(if source == 0 {
            v.active.1
        } else {
            v.active.0
        }),
        now <= u64::MAX - HIDE_DELAY_MS,
        forall|i: int| 0 <= i < polls.len() ==> #[trigger] polls[i] < now + HIDE_DELAY_MS,
        later >= now + HIDE_DELAY_MS,
    ensures
        ({
            let lost = updated(v, source, TextInputVisibility::Hide, now);
            let steps = polls.map_values(|t: u64| VisibilityStep::Poll { now: t });
            &&& run(lost, steps) == (lost, Seq::<bool>::empty())
            &&& polled(run(lost, steps).0, later).1 == Some(false)
        }),
    decreases polls.len(),
{
    let lost = updated(v, source, TextInputVisibility::Hide, now);
    let steps = polls.map_values(|t: u64| VisibilityStep::Poll { now: t });
    if polls.len() > 0 {
        let prefix = polls.drop_last();
        assert forall|i: int| 0 <= i < prefix.len() implies #[trigger] prefix[i] < now
            + HIDE_DELAY_MS by {
            assert(prefix[i] == polls[i]);
        }
        lemma_hide_is_delayed_exactly(v, source, now, prefix, later);
        assert(steps.drop_last() =~= prefix.map_values(|t: u64| VisibilityStep::Poll { now: t }));
        assert(polls.last() == polls[polls.len() - 1]);
    }
}

} // verus!
