//! The restart policy of a supervised monitor loop.

use vstd::prelude::*;

verus! {

/// How a supervised runner resumes a monitor loop: the cooldown honoured
/// after a failed run, configurable per deployment.
#[derive(Clone, Copy, Debug, PartialEq, Eq, Structural)]
pub struct RestartPolicy {
    pub cooldown_secs: u64,
}

/// What one invocation of a monitor's run loop came back with.
#[derive(Clone, Copy, Debug, PartialEq, Eq, Structural)]
pub enum RunOutcome {
    /// The loop returned normally. The monitor contract never aims for this;
    /// the path exists as a defensive safety net and is restarted too.
    Completed,
    /// The loop escaped with an error.
    Failed,
}

/// The supervisor's decision after one run: whether to run again and how
/// long to wait first.
#[derive(Clone, Copy, Debug, PartialEq, Eq, Structural)]
pub struct RestartDirective {
    pub restart: bool,
    pub cooldown_secs: u64,
}

/// The decision the supervisor takes after `outcome`, under `policy`.
pub open spec fn directive_spec(policy: RestartPolicy, outcome: RunOutcome) -> RestartDirective {
    RestartDirective {
        restart: true,
        cooldown_secs: if outcome is Failed {
            policy.cooldown_secs
        } else {
            0
        },
    }
}

/// Decides how to resume after one run of a monitor loop: always run again,
/// and wait the policy's cooldown first exactly when the run failed. No
/// outcome stops the supervision, so one venue's persistent failure degrades
/// to stale data from that venue, never to a stopped process.
pub fn next_directive(policy: &RestartPolicy, outcome: RunOutcome) -> (r: RestartDirective)
    ensures
        r == directive_spec(*policy, outcome),
        r.restart,
{
    match outcome {
        RunOutcome::Failed => RestartDirective {
            restart: true,
            cooldown_secs: policy.cooldown_secs,
        },
        RunOutcome::Completed => RestartDirective { restart: true, cooldown_secs: 0 },
    }
}

/// A monitor that fails any number of times in a row is restarted after
/// every failure, each time after one full cooldown, and is never abandoned:
/// over any sequence of failed runs, every decision is a restart with the
/// policy's cooldown.
pub proof fn lemma_supervisor_retries_every_failure(
    policy: RestartPolicy,
    outcomes: Seq<RunOutcome>,
)
    requires
        forall|i: int| 0 <= i < outcomes.len() ==> outcomes[i] is Failed,
    ensures
        forall|i: int|
            0 <= i < outcomes.len() ==> #[trigger] directive_spec(policy, outcomes[i])
                == (RestartDirective { restart: true, cooldown_secs: policy.cooldown_secs }),
{
    assert forall|i: int| 0 <= i < outcomes.len() implies #[trigger] directive_spec(
        policy,
        outcomes[i],
    ) == (RestartDirective { restart: true, cooldown_secs: policy.cooldown_secs }) by {
        assert(outcomes[i] is Failed);
    }
}

} // verus!
