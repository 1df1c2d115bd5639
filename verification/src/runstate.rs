//! Run-state controller: the paused/running flag owned by the console, the
//! "just entered pause" transient, and the per-tick scheduling decision the
//! host consults before invoking the console step.
use vstd::prelude::*;

verus! {

/// Whether the host scheduler currently suppresses normal simulation
/// advancement. Owned by the console; set by the pause trigger, cleared by
/// the `resume` command.
pub struct Pause(pub bool);

/// True only on the tick where `Pause` transitioned from false to true;
/// gates the one-time welcome banner.
pub struct EnteringConsole(pub bool);

/// Per-tick scheduling decision reported to the host: either skip the
/// console step this tick, or run it and check again immediately after.
#[derive(PartialEq, Eq, Structural)]
pub enum RunDecision {
    Skip,
    RunThenRecheck,
}

impl Default for Pause {
    /// A fresh controller starts in the running state.
    fn default() -> (r: Pause)
        ensures
            !r.0,
    {
        Pause(false)
    }
}

/// One controller tick: recompute the just-entered-pause transient from the
/// current and previous paused values, remember the current value for the
/// next tick, and report whether the console step must run.
pub fn pause(
    paused: &Pause,
    last_pause: &mut Pause,
    entering_console: &mut EnteringConsole,
) -> (r: RunDecision)
    ensures
        final(entering_console).0 == (paused.0 && !old(last_pause).0),
        final(last_pause).0 == paused.0,
        r == (if paused.0 {
            RunDecision::RunThenRecheck
        } else {
            RunDecision::Skip
        }),
{
    entering_console.0 = (paused.0 != last_pause.0) && paused.0;
    last_pause.0 = paused.0;
    if paused.0 {
        RunDecision::RunThenRecheck
    } else {
        RunDecision::Skip
    }
}

/// The external pause trigger: when the designated input event fired this
/// tick, enter the paused state; otherwise leave the flag as it is.
pub fn input_pause(pressed: bool, pause: &mut Pause)
    ensures
        final(pause).0 == (old(pause).0 || pressed),
{
    if pressed {
        pause.0 = true;
    }
}

/// What the controller remembers after tick `t` of a run over the per-tick
/// paused values `ps`, starting from a not-paused previous value: `pause`
/// stores each tick's paused value for the next tick to compare against.
pub open spec fn spec_run_last(ps: Seq<bool>, t: int) -> bool {
    if t < 0 {
        false
    } else {
        ps[t]
    }
}

/// What the just-entered-pause transient holds during tick `t` of such a
/// run: `pause` computes it each tick as the paused value with the previous
/// tick's value negated.
pub open spec fn spec_run_entering(ps: Seq<bool>, t: int) -> bool {
    ps[t] && !spec_run_last(ps, t - 1)
}

/// The transient is true exactly on the ticks right after a false-to-true
/// transition of the paused flag: never while continuously paused or
/// continuously running.
pub proof fn lemma_entering_console_marks_edges(ps: Seq<bool>, t: int)
    requires
        0 <= t < ps.len(),
    ensures
        spec_run_entering(ps, t) == (ps[t] && (t == 0 || !ps[t - 1])),
{
}

/// Exactly once per transition: between any two ticks that both raise the
/// transient lies a tick on which the flag was down again.
pub proof fn lemma_entering_console_once_per_transition(ps: Seq<bool>, t1: int, t2: int)
    requires
        0 <= t1 < t2 < ps.len(),
        spec_run_entering(ps, t1),
        spec_run_entering(ps, t2),
    ensures
        exists|u: int| t1 < u < t2 && !(#[trigger] ps[u]),
{
    assert(!ps[t2 - 1]);
    if t2 - 1 == t1 {
        assert(false);
    } else {
        assert(t1 < t2 - 1 < t2 && !ps[t2 - 1]);
    }
}

} // verus!
