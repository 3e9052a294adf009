//! The edge-triggered controller: a two-state machine over the per-poll
//! detection signal.
//!
//! Each poll reduces the current snapshot to a boolean match result `m`.
//! The controller keeps the previous result as its state and fires an action
//! only on a change: the launch action when detection begins, the closing
//! action when it ends. Repeated polls with an unchanged signal fire nothing,
//! so each contiguous detected interval launches exactly once.

use vstd::prelude::*;
use crate::action::{ActionSpec, Config};
use crate::pattern::snapshot_matches;
use crate::snapshot::Snapshot;

verus! {

/// What a single poll asks the caller to do.
#[derive(Clone, Copy, Debug, PartialEq, Eq, Structural)]
pub enum Fired {
    /// Detection just began: run the launch action.
    Launch,
    /// Detection just ended: run the closing action, if one is configured.
    Close,
    /// No edge: run nothing.
    Nothing,
}

/// The state the detection signal moves to after a poll that observed `m`.
pub open spec fn next_state(prev: bool, m: bool) -> bool {
    m
}

/// The action a poll fires, given the previous detection state and the
/// current match result.
pub open spec fn fired(prev: bool, m: bool) -> Fired {
    if m && !prev {
        Fired::Launch
    } else if !m && prev {
        Fired::Close
    } else {
        Fired::Nothing
    }
}

/// Detection state carried across polls. Starts absent; after each poll it
/// holds the match result that poll observed.
#[derive(Debug)]
pub struct Controller {
    pub target_present: bool,
}

impl Controller {
    /// A fresh controller: the target has not been seen.
    pub fn new() -> (c: Controller)
        ensures
            !c.target_present,
    {
        Controller { target_present: false }
    }

    /// Feed one poll's match result through the state machine and learn
    /// which action it fires.
    pub fn observe(&mut self, m: bool) -> (f: Fired)
        ensures
            final(self).target_present == next_state(old(self).target_present, m),
            f == fired(old(self).target_present, m),
    {
        let was = self.target_present;
        self.target_present = m;
        if m && !was {
            Fired::Launch
        } else if !m && was {
            Fired::Close
        } else {
            Fired::Nothing
        }
    }

    /// One full poll: reduce the snapshot to a match result against the
    /// configured pattern, advance the state machine, and learn which
    /// action this poll fires.
    pub fn poll(&mut self, cfg: &Config, snap: &Snapshot) -> (f: Fired)
        ensures
            final(self).target_present == snapshot_matches(snap.records@, cfg.pattern@),
            f == fired(
                old(self).target_present,
                snapshot_matches(snap.records@, cfg.pattern@),
            ),
    {
        let m = crate::pattern::matches(snap, cfg.pattern.as_str());
        self.observe(m)
    }
}

/// The command a fired action asks the caller to spawn: the launch action on
/// a rising edge, the closing action on a falling edge if one is configured,
/// and nothing otherwise.
pub open spec fn spec_action_for(cfg: Config, f: Fired) -> Option<ActionSpec> {
    match f {
        Fired::Launch => Some(cfg.launch),
        Fired::Close => cfg.closing,
        Fired::Nothing => None,
    }
}

/// Look up the configured command for a fired action.
pub fn action_for<'a>(cfg: &'a Config, f: Fired) -> (r: Option<&'a ActionSpec>)
    ensures
        match r {
            Some(a) => spec_action_for(*cfg, f) == Some(*a),
            None => spec_action_for(*cfg, f) is None,
        },
{
    match f {
        Fired::Launch => Some(&cfg.launch),
        Fired::Close => match &cfg.closing {
            Some(a) => Some(a),
            None => None,
        },
        Fired::Nothing => None,
    }
}

/// The detection state after a whole sequence of polls, starting absent:
/// each poll leaves the state at the match result it observed.
pub open spec fn state_after_polls(ms: Seq<bool>) -> bool
    decreases ms.len(),
{
    if ms.len() == 0 {
        false
    } else {
        next_state(state_after_polls(ms.drop_last()), ms.last())
    }
}

/// The action fired at poll `i` of a sequence of match results, for a
/// controller that starts absent.
pub open spec fn fired_at(ms: Seq<bool>, i: int) -> Fired
    recommends
        0 <= i < ms.len(),
{
    fired(state_after_polls(ms.take(i)), ms[i])
}

/// After any polls, the state is simply the last match result observed
/// (absent before the first poll).
pub proof fn lemma_state_after_polls(ms: Seq<bool>)
    ensures
        state_after_polls(ms) == (ms.len() > 0 && ms.last()),
{
}

/// Drive a fresh controller through a whole sequence of match results and
/// collect the fired actions: the action at each position is exactly
/// `fired_at` of the sequence there, so the interval lemmas below apply to
/// what a real polling loop does.
pub fn run_polls(results: &Vec<bool>) -> (actions: Vec<Fired>)
    ensures
        actions@.len() == results@.len(),
        forall|i: int| 0 <= i < results@.len() ==> actions@[i] == fired_at(results@, i),
{
    let mut c = Controller::new();
    let mut actions: Vec<Fired> = Vec::new();
    let mut i: usize = 0;
    while i < results.len()
        invariant
            i <= results@.len(),
            actions@.len() == i,
            c.target_present == state_after_polls(results@.take(i as int)),
            forall|j: int| 0 <= j < i ==> actions@[j] == fired_at(results@, j),
        decreases results@.len() - i,
    {
        let f = c.observe(results[i]);
        actions.push(f);
        proof {
            assert(results@.take(i + 1).drop_last() =~= results@.take(i as int));
            assert(results@.take(i + 1).last() == results@[i as int]);
        }
        i = i + 1;
    }
    actions
}

/// Exactly-once launch: over a contiguous interval of polls that all match,
/// entered from absence, the launch action fires at the first poll of the
/// interval and at no later poll of it.
pub proof fn lemma_launch_once_per_interval(ms: Seq<bool>, a: int, b: int)
    requires
        0 <= a < b <= ms.len(),
        forall|i: int| a <= i < b ==> ms[i],
        a == 0 || !ms[a - 1],
    ensures
        fired_at(ms, a) == Fired::Launch,
        forall|i: int| a < i < b ==> fired_at(ms, i) == Fired::Nothing,
{
    lemma_state_after_polls(ms.take(a));
    assert forall|i: int| a < i < b implies fired_at(ms, i) == Fired::Nothing by {
        lemma_state_after_polls(ms.take(i));
        assert(ms.take(i).last() == ms[i - 1]);
    }
}

/// Exactly-once close: over a contiguous interval of polls that all fail to
/// match, entered from presence, the closing action fires at the first poll
/// of the interval and at no later poll of it.
pub proof fn lemma_close_once_per_interval(ms: Seq<bool>, a: int, b: int)
    requires
        0 < a < b <= ms.len(),
        ms[a - 1],
        forall|i: int| a <= i < b ==> !ms[i],
    ensures
        fired_at(ms, a) == Fired::Close,
        forall|i: int| a < i < b ==> fired_at(ms, i) == Fired::Nothing,
{
    lemma_state_after_polls(ms.take(a));
    assert(ms.take(a).last() == ms[a - 1]);
    assert forall|i: int| a < i < b implies fired_at(ms, i) == Fired::Nothing by {
        lemma_state_after_polls(ms.take(i));
        assert(ms.take(i).last() == ms[i - 1]);
    }
}

/// Idempotence: a poll that matches while the target is already present
/// fires nothing, however often it repeats.
pub proof fn lemma_no_relaunch_while_present(ms: Seq<bool>, i: int)
    requires
        0 < i < ms.len(),
        ms[i - 1],
        ms[i],
    ensures
        fired_at(ms, i) == Fired::Nothing,
{
    lemma_state_after_polls(ms.take(i));
    assert(ms.take(i).last() == ms[i - 1]);
}

} // verus!
