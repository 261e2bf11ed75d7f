use vstd::prelude::*;

use crate::window::Window;

verus! {

/// How long to wait, in milliseconds, after focus has left the target and
/// before the click is posted.
pub const SETTLE_MS: u64 = 100;

/// The state of the focus-transition detector.
#[derive(Clone, Copy, Debug, PartialEq, Eq, Structural)]
pub enum FocusWatch {
    /// Waiting for focus to reach a titled window other than `baseline`.
    Seeking { baseline: usize },
    /// Waiting for focus to leave `target`.
    Armed { target: usize },
    /// The click has been requested; nothing more happens.
    Done,
}

/// What the caller does after handing the detector one foreground snapshot.
#[derive(Clone, Copy, Debug, PartialEq, Eq, Structural)]
pub enum Action {
    /// Take another foreground snapshot.
    Poll,
    /// The snapshot just observed is the new target.
    Target,
    /// Wait `delay_ms`, then post one right-button-down message to `hwnd`.
    RightClick { hwnd: usize, delay_ms: u64 },
    /// The detector has finished.
    Stop,
}

/// One foreground observation as the detector sees it: the handle and
/// whether the window has a non-empty title.
pub open spec fn sighting(w: Window) -> (usize, bool) {
    (w.hwnd, w.titled())
}

impl FocusWatch {
    /// The detector's transition on one observation.
    pub open spec fn step(self, seen: (usize, bool)) -> (FocusWatch, Action) {
        match self {
            FocusWatch::Seeking { baseline } => {
                if seen.0 != baseline && seen.1 {
                    (FocusWatch::Armed { target: seen.0 }, Action::Target)
                } else {
                    (self, Action::Poll)
                }
            },
            FocusWatch::Armed { target } => {
                if seen.0 != target {
                    (FocusWatch::Done, Action::RightClick { hwnd: target, delay_ms: SETTLE_MS })
                } else {
                    (self, Action::Poll)
                }
            },
            FocusWatch::Done => (self, Action::Stop),
        }
    }

    /// The state reached and the actions given over a run of observations.
    pub open spec fn run(self, script: Seq<(usize, bool)>) -> (FocusWatch, Seq<Action>)
        decreases script.len(),
    {
        if script.len() == 0 {
            (self, seq![])
        } else {
            let (next, a) = self.step(script[0]);
            let (last, rest) = next.run(script.drop_first());
            (last, seq![a] + rest)
        }
    }

    /// Starts looking for the next focused window other than `current`.
    pub fn seeking(current: &Window) -> (r: FocusWatch)
        ensures
            r == (FocusWatch::Seeking { baseline: current.hwnd }),
    {
        FocusWatch::Seeking { baseline: current.hwnd }
    }

    /// Starts waiting for focus to leave `target`.
    pub fn armed(target: &Window) -> (r: FocusWatch)
        ensures
            r == (FocusWatch::Armed { target: target.hwnd }),
    {
        FocusWatch::Armed { target: target.hwnd }
    }

    /// Feeds one foreground snapshot to the detector.
    pub fn observe(&mut self, window: &Window) -> (a: Action)
        ensures
            (*final(self), a) == old(self).step(sighting(*window)),
    {
        match *self {
            FocusWatch::Seeking { baseline } => {
                if window.hwnd != baseline && !window.title.as_str().is_empty() {
                    *self = FocusWatch::Armed { target: window.hwnd };
                    Action::Target
                } else {
                    Action::Poll
                }
            },
            FocusWatch::Armed { target } => {
                if window.hwnd != target {
                    *self = FocusWatch::Done;
                    Action::RightClick { hwnd: target, delay_ms: SETTLE_MS }
                } else {
                    Action::Poll
                }
            },
            FocusWatch::Done => Action::Stop,
        }
    }
}

/// Once done, the detector stays done and only ever answers `Stop`.
pub proof fn lemma_done_stays(script: Seq<(usize, bool)>)
    ensures
        FocusWatch::Done.run(script).0 == FocusWatch::Done,
        FocusWatch::Done.run(script).1.len() == script.len(),
        forall|j: int|
            0 <= j < script.len() ==> #[trigger] FocusWatch::Done.run(script).1[j] == Action::Stop,
    decreases script.len(),
{
    if script.len() > 0 {
        lemma_done_stays(script.drop_first());
        let rest = FocusWatch::Done.run(script.drop_first()).1;
        assert forall|j: int| 0 <= j < script.len() implies #[trigger] FocusWatch::Done.run(
            script,
        ).1[j] == Action::Stop by {
            if j > 0 {
                assert(FocusWatch::Done.run(script).1[j] == rest[j - 1]);
            }
        }
    }
}

/// Looking for a new target, the detector passes over every snapshot of the
/// baseline window or with an empty title, and takes the first titled
/// snapshot of another window as the target.
pub proof fn lemma_seeking_takes_first_other_titled(
    baseline: usize,
    script: Seq<(usize, bool)>,
    k: int,
)
    requires
        0 <= k < script.len(),
        script[k].0 != baseline && script[k].1,
        forall|j: int| 0 <= j < k ==> !(script[j].0 != baseline && #[trigger] script[j].1),
    ensures
        ({
            let (state, actions) = (FocusWatch::Seeking { baseline }).run(script.take(k + 1));
            &&& state == (FocusWatch::Armed { target: script[k].0 })
            &&& actions.len() == k + 1
            &&& actions[k] == Action::Target
            &&& forall|j: int| 0 <= j < k ==> #[trigger] actions[j] == Action::Poll
        }),
    decreases k,
{
    let w = FocusWatch::Seeking { baseline };
    let prefix = script.take(k + 1);
    assert(prefix[0] == script[0]);
    if k == 0 {
        assert(prefix.drop_first() =~= seq![]);
        let next = FocusWatch::Armed { target: script[0].0 };
        assert(next.run(prefix.drop_first()) == (next, Seq::<Action>::empty()));
    } else {
        assert(!(script[0].0 != baseline && script[0].1));
        let tail = script.drop_first();
        assert forall|j: int| 0 <= j < k - 1 implies !(tail[j].0 != baseline
            && #[trigger] tail[j].1) by {
            assert(tail[j] == script[j + 1]);
        }
        lemma_seeking_takes_first_other_titled(baseline, tail, k - 1);
        assert(prefix.drop_first() =~= tail.take(k));
        let rest = w.run(tail.take(k)).1;
        assert(w.run(prefix).1[k] == rest[k - 1]);
        assert forall|j: int| 0 <= j < k implies #[trigger] w.run(prefix).1[j] == Action::Poll by {
            if j > 0 {
                assert(w.run(prefix).1[j] == rest[j - 1]);
            }
        }
    }
}

/// Armed on a target, the detector requests exactly one click: on the first
/// snapshot of another window, aimed at the target itself and after the
/// settling delay. Snapshots of the target before it ask for another poll;
/// everything after it gets `Stop`.
pub proof fn lemma_armed_clicks_target_once(target: usize, script: Seq<(usize, bool)>, k: int)
    requires
        0 <= k < script.len(),
        script[k].0 != target,
        forall|j: int| 0 <= j < k ==> (#[trigger] script[j]).0 == target,
    ensures
        ({
            let (state, actions) = (FocusWatch::Armed { target }).run(script);
            &&& state == FocusWatch::Done
            &&& actions.len() == script.len()
            &&& actions[k] == (Action::RightClick { hwnd: target, delay_ms: SETTLE_MS })
            &&& forall|j: int| 0 <= j < k ==> #[trigger] actions[j] == Action::Poll
            &&& forall|j: int| k < j < script.len() ==> #[trigger] actions[j] == Action::Stop
        }),
    decreases k,
{
    let w = FocusWatch::Armed { target };
    let tail = script.drop_first();
    if k == 0 {
        lemma_done_stays(tail);
        let rest = FocusWatch::Done.run(tail).1;
        assert forall|j: int| k < j < script.len() implies #[trigger] w.run(script).1[j]
            == Action::Stop by {
            assert(w.run(script).1[j] == rest[j - 1]);
        }
    } else {
        assert(script[0].0 == target);
        assert forall|j: int| 0 <= j < k - 1 implies (#[trigger] tail[j]).0 == target by {
            assert(tail[j] == script[j + 1]);
        }
        lemma_armed_clicks_target_once(target, tail, k - 1);
        let rest = w.run(tail).1;
        assert forall|j: int| 0 <= j < script.len() && j > 0 implies #[trigger] w.run(script).1[j]
            == rest[j - 1] by {}
        assert forall|j: int| 0 <= j < k implies #[trigger] w.run(script).1[j] == Action::Poll by {
            if j > 0 {
                assert(w.run(script).1[j] == rest[j - 1]);
            }
        }
        assert forall|j: int| k < j < script.len() implies #[trigger] w.run(script).1[j]
            == Action::Stop by {
            assert(w.run(script).1[j] == rest[j - 1]);
        }
    }
}

} // verus!
