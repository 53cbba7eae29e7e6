//! The retry orchestrator: every pooled data operation is wrapped in an
//! ensure-connected, attempt, reconnect-once, retry protocol.
//!
//! The caller runs the network steps and reports each outcome to a
//! [`RetryMachine`]; the machine decides the next step and enforces the
//! policy: a failing attempt is followed by exactly one reconnect-and-retry,
//! and a second failure is delivered to the caller verbatim.

use vstd::prelude::*;

use crate::config::ConnectionStatus;
use crate::pool::PoolManager;

verus! {

/// Where one orchestrated operation stands.
#[derive(Clone, Copy, Debug, PartialEq, Eq, Structural)]
pub enum RetryPhase {
    /// Waiting for the ensure-connected step.
    Ensuring,
    /// Connected; waiting for the first attempt of the operation.
    FirstAttempt,
    /// The first attempt failed; waiting for the forced reconnect.
    Reconnecting,
    /// Reconnected; waiting for the single retry of the operation.
    SecondAttempt,
    /// The outcome is available.
    Done,
}

/// The final outcome of one orchestrated operation.
pub enum OpOutcome {
    Success,
    Failed(String),
}

/// The state of one orchestrated operation: its phase, how many attempts
/// have completed, how many reconnect cycles were triggered, the first
/// attempt's error if it failed, and the final outcome.
pub struct RetryMachine {
    pub phase: RetryPhase,
    pub attempts: u64,
    pub reconnects: u64,
    pub first_error: Option<String>,
    pub outcome: Option<OpOutcome>,
}

impl RetryMachine {
    /// The phase determines the counters: no reconnect before a first
    /// failure, exactly one from then on, and never more; an operation that
    /// failed after any attempt has reconnected exactly once.
    pub open spec fn wf(&self) -> bool {
        match self.phase {
            RetryPhase::Ensuring | RetryPhase::FirstAttempt => self.attempts == 0
                && self.reconnects == 0 && self.outcome is None && self.first_error is None,
            RetryPhase::Reconnecting | RetryPhase::SecondAttempt => self.attempts == 1
                && self.reconnects == 1 && self.outcome is None && self.first_error is Some,
            RetryPhase::Done => self.outcome is Some && self.reconnects <= 1
                && self.attempts <= 2
                && (self.outcome matches Some(OpOutcome::Failed(_))
                    ==> (self.attempts >= 1 ==> self.reconnects == 1))
                && (self.attempts == 2 ==> self.reconnects == 1),
        }
    }

    /// A fresh operation, waiting for the ensure-connected step.
    pub fn new() -> (m: Self)
        ensures
            m.wf(),
            m.phase == RetryPhase::Ensuring,
            m.reconnects == 0,
    {
        RetryMachine {
            phase: RetryPhase::Ensuring,
            attempts: 0,
            reconnects: 0,
            first_error: None,
            outcome: None,
        }
    }

    /// Record the outcome of the ensure-connected step.  Failure to connect
    /// ends the operation with that error before any attempt and before any
    /// reconnect.
    pub fn on_ensure_result(&mut self, r: Result<(), String>)
        requires
            old(self).wf(),
            old(self).phase == RetryPhase::Ensuring,
        ensures
            final(self).wf(),
            r is Ok ==> final(self).phase == RetryPhase::FirstAttempt,
            r matches Err(e) ==> final(self).phase == RetryPhase::Done
                && final(self).outcome == Some(OpOutcome::Failed(e))
                && final(self).attempts == 0
                && final(self).reconnects == 0,
    {
        match r {
            Ok(()) => {
                self.phase = RetryPhase::FirstAttempt;
            },
            Err(e) => {
                self.phase = RetryPhase::Done;
                self.outcome = Some(OpOutcome::Failed(e));
            },
        }
    }

    /// Record the outcome of one attempt of the operation.
    ///
    /// A first failure triggers the one reconnect cycle.  A failure of the
    /// retry ends the operation: the identifier is marked `Disconnected`
    /// with the error, and the error is delivered verbatim.
    pub fn on_attempt_result(&mut self, pool: &mut PoolManager, id: &str, r: Result<(), String>)
        requires
            old(self).wf(),
            old(self).phase == RetryPhase::FirstAttempt || old(self).phase
                == RetryPhase::SecondAttempt,
            old(pool).wf(),
        ensures
            final(self).wf(),
            final(pool).wf(),
            r is Ok ==> final(self).phase == RetryPhase::Done
                && final(self).outcome == Some(OpOutcome::Success)
                && *final(pool) == *old(pool),
            old(self).phase == RetryPhase::FirstAttempt
                ==> (r matches Err(e) ==> final(self).phase == RetryPhase::Reconnecting
                && final(self).reconnects == 1
                && final(self).first_error == Some(e)
                && *final(pool) == *old(pool)),
            old(self).phase == RetryPhase::SecondAttempt
                ==> (r matches Err(e) ==> final(self).phase == RetryPhase::Done
                && final(self).outcome == Some(OpOutcome::Failed(e))
                && final(self).attempts == 2
                && final(self).reconnects == 1
                && final(pool).spec_status(id@) == ConnectionStatus::Disconnected),
            forall|o: Seq<char>| o != id@
                ==> #[trigger] final(pool).has(o) == old(pool).has(o),
            forall|o: Seq<char>| o != id@ && old(pool).has(o)
                ==> #[trigger] final(pool).entry(o) == old(pool).entry(o),
    {
        match r {
            Ok(()) => {
                self.attempts = self.attempts + 1;
                self.phase = RetryPhase::Done;
                self.outcome = Some(OpOutcome::Success);
            },
            Err(e) => {
                self.attempts = self.attempts + 1;
                if self.phase == RetryPhase::FirstAttempt {
                    self.phase = RetryPhase::Reconnecting;
                    self.reconnects = 1;
                    self.first_error = Some(e);
                } else {
                    self.phase = RetryPhase::Done;
                    pool.mark_disconnected(id, Some(e.clone()));
                    self.outcome = Some(OpOutcome::Failed(e));
                }
            },
        }
    }

    /// Record the outcome of the forced reconnect.  A reconnect failure
    /// ends the operation with the connect error; the one reconnect cycle
    /// has still happened.
    pub fn on_reconnect_result(&mut self, r: Result<(), String>)
        requires
            old(self).wf(),
            old(self).phase == RetryPhase::Reconnecting,
        ensures
            final(self).wf(),
            r is Ok ==> final(self).phase == RetryPhase::SecondAttempt,
            r matches Err(e) ==> final(self).phase == RetryPhase::Done
                && final(self).outcome == Some(OpOutcome::Failed(e))
                && final(self).reconnects == 1,
    {
        match r {
            Ok(()) => {
                self.phase = RetryPhase::SecondAttempt;
            },
            Err(e) => {
                self.phase = RetryPhase::Done;
                self.outcome = Some(OpOutcome::Failed(e));
            },
        }
    }
}

/// A failing data operation against a cached driver triggers exactly one
/// reconnect-and-retry cycle: however a completed operation that made at
/// least one attempt came to fail — the retry failed too, or the forced
/// reconnect itself failed — exactly one reconnect was triggered, and never
/// more than two attempts were made.
pub proof fn lemma_reconnect_once(m: RetryMachine)
    requires
        m.wf(),
        m.phase == RetryPhase::Done,
        m.attempts >= 1,
        m.outcome matches Some(OpOutcome::Failed(_)),
    ensures
        m.reconnects == 1,
        m.attempts <= 2,
{
}

} // verus!
