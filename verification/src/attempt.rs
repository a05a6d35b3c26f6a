//! The conservative replay gate that runs after a single send has finished.
//!
//! This module parses no HTTP, `Retry-After` or error text and performs no waiting or
//! next send. Transports record facts only through the tracker's state machine; an
//! ordinary 429/503 by itself can never issue a replay permit.
use vstd::prelude::*;

use crate::coordinator::{AttemptCompletion, AttemptPermit, AttemptPosition};

verus! {

/// A classification of one failed send that carries no sensitive data.
#[derive(Clone, Copy, Debug, PartialEq, Eq, Structural)]
pub enum AttemptFailure {
    /// Upstream quota or rate limit.
    RateLimited,
    /// Upstream overloaded or temporarily unavailable.
    Overloaded,
    /// Connect, write or response read failed.
    Transport,
    /// Connect, first byte or stream idle budget exceeded.
    Timeout,
    /// Upstream rejected the current credential.
    Authentication,
    /// Upstream rejected the request or model.
    Rejected,
    /// The response cannot be validated against the registered protocol.
    Protocol,
    /// The local client cancelled.
    Cancelled,
    /// Cannot be classified safely.
    Unknown,
}

/// The forward-only phases of one send.
#[derive(Clone, Copy, Debug, PartialEq, Eq, Structural)]
pub enum SendPhase {
    /// The controlled writer has not written request bytes yet.
    Pending,
    /// Request writing started; the upstream may already have received data.
    RequestWriteStarted,
    /// Upstream response headers were observed.
    UpstreamResponseObserved,
    /// The first protocol-confirmed semantic event was observed.
    FirstSemanticEventObserved,
    /// Response semantics were committed downstream.
    DownstreamCommitted,
    /// The client cancelled.
    Cancelled,
}

/// Conservative state of the upstream write.
#[derive(Clone, Copy, Debug, PartialEq, Eq, Structural)]
pub enum UpstreamWriteState {
    /// A counting writer proved that zero bytes were written.
    NoBytesProven,
    /// One or more request bytes may have been written.
    BytesMayHaveBeenWritten,
    /// The transport cannot prove how much was written.
    Unknown,
}

/// Whether the downstream response is already visible to the client.
#[derive(Clone, Copy, Debug, PartialEq, Eq, Structural)]
pub enum DownstreamCommitState {
    /// No response semantics were committed yet.
    NotCommitted,
    /// Response headers, body or stream events were committed.
    Committed,
}

/// Whether the current request may already have been executed.
#[derive(Clone, Copy, Debug, PartialEq, Eq, Structural)]
pub enum DeliveryState {
    /// The controlled writer proved that the request was not written.
    NotSent,
    /// A registered adapter contract proved an upstream rejection before execution.
    PreExecutionRejected,
    /// Neither non-delivery nor non-execution can be proved.
    DeliveryUnknown,
}

/// Conservative billing state.
#[derive(Clone, Copy, Debug, PartialEq, Eq, Structural)]
pub enum ChargeState {
    /// The current attempt was proved not executed.
    NotCharged,
    /// Whether a charge was incurred cannot be proved.
    Unknown,
}

/// Why the replay gate allows a new independent attempt.
#[derive(Clone, Copy, Debug, PartialEq, Eq, Structural)]
pub enum ReplayPermitReason {
    /// The current attempt was proved not sent.
    NotSent,
    /// A trusted adapter contract proved a rejection before execution.
    PreExecutionRejected,
}

/// Why the replay gate stops automatic replay.
#[derive(Clone, Copy, Debug, PartialEq, Eq, Structural)]
pub enum ReplayStopReason {
    /// The local client cancelled.
    Cancelled,
    /// Response semantics were committed downstream.
    DownstreamCommitted,
    /// Upstream semantics were observed; a pre-execution rejection can no longer be claimed.
    SemanticEventObserved,
    /// The write or execution state cannot be proved safe.
    DeliveryUnknown,
}

/// Whether the coordinator may create a new independent attempt.
#[derive(Clone, Copy, Debug, PartialEq, Eq, Structural)]
pub enum ReplayDecision {
    /// Only a new attempt is allowed; waiting, key changes or stage moves are decided elsewhere.
    Permit(ReplayPermitReason),
    /// Automatic replay of the current request must stop.
    Stop(ReplayStopReason),
}

/// A transition was requested in a phase that does not allow it.
#[derive(Clone, Copy, Debug, PartialEq, Eq, Structural)]
pub enum AttemptTransitionError {
    /// The current phase does not allow the transition.
    InvalidPhase,
}

/// Proof of a rejection before execution, issued only by a registered adapter contract.
#[derive(Clone, Copy, Debug, PartialEq, Eq)]
pub struct TrustedPreExecutionRejection(());

impl TrustedPreExecutionRejection {
    /// Issues the proof; only a registered adapter contract that observed an upstream
    /// rejection before execution may call this.
    pub fn issue_from_adapter_contract() -> (r: Self) {
        TrustedPreExecutionRejection(())
    }
}

/// The delivery state that the send facts allow to claim.
pub open spec fn delivery_after(phase: SendPhase, write: UpstreamWriteState, trusted_rejection: bool) -> DeliveryState {
    if write == UpstreamWriteState::Unknown || phase == SendPhase::FirstSemanticEventObserved || phase
        == SendPhase::DownstreamCommitted {
        DeliveryState::DeliveryUnknown
    } else if write == UpstreamWriteState::NoBytesProven {
        DeliveryState::NotSent
    } else if trusted_rejection {
        DeliveryState::PreExecutionRejected
    } else {
        DeliveryState::DeliveryUnknown
    }
}

/// The billing state that a delivery state allows to claim.
pub open spec fn charge_for(delivery: DeliveryState) -> ChargeState {
    match delivery {
        DeliveryState::NotSent | DeliveryState::PreExecutionRejected => ChargeState::NotCharged,
        DeliveryState::DeliveryUnknown => ChargeState::Unknown,
    }
}

/// The unique replay verdict for the recorded facts of one attempt.
pub open spec fn decision_for(
    failure: AttemptFailure,
    phase: SendPhase,
    downstream: DownstreamCommitState,
    delivery: DeliveryState,
    cancelled: bool,
) -> ReplayDecision {
    if downstream == DownstreamCommitState::Committed {
        ReplayDecision::Stop(ReplayStopReason::DownstreamCommitted)
    } else if cancelled || failure == AttemptFailure::Cancelled || phase == SendPhase::Cancelled {
        ReplayDecision::Stop(ReplayStopReason::Cancelled)
    } else if phase == SendPhase::FirstSemanticEventObserved {
        ReplayDecision::Stop(ReplayStopReason::SemanticEventObserved)
    } else {
        match delivery {
            DeliveryState::NotSent => ReplayDecision::Permit(ReplayPermitReason::NotSent),
            DeliveryState::PreExecutionRejected => ReplayDecision::Permit(
                ReplayPermitReason::PreExecutionRejected,
            ),
            DeliveryState::DeliveryUnknown => ReplayDecision::Stop(ReplayStopReason::DeliveryUnknown),
        }
    }
}

/// A fixed-size recorder of the facts of one send; it cannot be copied.
pub struct AttemptTracker<'s, 'c> {
    permit: AttemptPermit<'s, 'c>,
    phase: SendPhase,
    write: UpstreamWriteState,
    downstream: DownstreamCommitState,
    cancelled: bool,
}

impl<'s, 'c> AttemptTracker<'s, 'c> {
    /// The permit the tracker consumed.
    pub closed spec fn spec_permit(&self) -> AttemptPermit<'s, 'c> {
        self.permit
    }

    /// The current send phase.
    pub closed spec fn spec_phase(&self) -> SendPhase {
        self.phase
    }

    /// The current write state.
    pub closed spec fn spec_write(&self) -> UpstreamWriteState {
        self.write
    }

    /// The current downstream commit state.
    pub closed spec fn spec_downstream(&self) -> DownstreamCommitState {
        self.downstream
    }

    /// Whether the client cancelled.
    pub closed spec fn spec_cancelled(&self) -> bool {
        self.cancelled
    }

    /// Starts recording facts for the attempt the permit authorizes.
    pub fn from_permit(permit: AttemptPermit<'s, 'c>) -> (t: Self)
        ensures
            t.spec_permit() == permit,
            t.spec_phase() == SendPhase::Pending,
            t.spec_write() == UpstreamWriteState::Unknown,
            t.spec_downstream() == DownstreamCommitState::NotCommitted,
            !t.spec_cancelled(),
    {
        AttemptTracker {
            permit,
            phase: SendPhase::Pending,
            // A zero-byte write is never assumed; the writer must prove it explicitly.
            write: UpstreamWriteState::Unknown,
            downstream: DownstreamCommitState::NotCommitted,
            cancelled: false,
        }
    }

    /// Returns the plan position of the attempt.
    pub fn position(&self) -> (r: AttemptPosition)
        ensures
            r == self.spec_permit().spec_position(),
    {
        self.permit.position()
    }

    /// Records that the counting writer wrote zero bytes; allowed only while pending.
    pub fn zero_bytes_proven(&mut self) -> (r: Result<(), AttemptTransitionError>)
        ensures
            old(self).spec_phase() == SendPhase::Pending <==> r is Ok,
            r is Ok ==> final(self).spec_write() == UpstreamWriteState::NoBytesProven,
            r is Err ==> final(self).spec_write() == old(self).spec_write(),
            final(self).spec_phase() == old(self).spec_phase(),
            final(self).spec_downstream() == old(self).spec_downstream(),
            final(self).spec_cancelled() == old(self).spec_cancelled(),
            final(self).spec_permit() == old(self).spec_permit(),
    {
        if self.phase != SendPhase::Pending {
            return Err(AttemptTransitionError::InvalidPhase);
        }
        self.write = UpstreamWriteState::NoBytesProven;
        Ok(())
    }

    /// Records that request writing started.
    pub fn request_write_started(&mut self) -> (r: Result<(), AttemptTransitionError>)
        ensures
            (old(self).spec_phase() == SendPhase::Pending && old(self).spec_write()
                != UpstreamWriteState::BytesMayHaveBeenWritten) <==> r is Ok,
            r is Ok ==> final(self).spec_phase() == SendPhase::RequestWriteStarted && final(self).spec_write()
                == UpstreamWriteState::BytesMayHaveBeenWritten,
            r is Err ==> final(self).spec_phase() == old(self).spec_phase() && final(self).spec_write()
                == old(self).spec_write(),
            final(self).spec_downstream() == old(self).spec_downstream(),
            final(self).spec_cancelled() == old(self).spec_cancelled(),
            final(self).spec_permit() == old(self).spec_permit(),
    {
        if self.phase != SendPhase::Pending || self.write == UpstreamWriteState::BytesMayHaveBeenWritten {
            return Err(AttemptTransitionError::InvalidPhase);
        }
        self.phase = SendPhase::RequestWriteStarted;
        self.write = UpstreamWriteState::BytesMayHaveBeenWritten;
        Ok(())
    }

    /// Records that the transport cannot prove the write state.
    pub fn write_state_unknown(&mut self) -> (r: Result<(), AttemptTransitionError>)
        ensures
            !(old(self).spec_phase() == SendPhase::DownstreamCommitted || old(self).spec_phase()
                == SendPhase::Cancelled) <==> r is Ok,
            r is Ok ==> final(self).spec_write() == UpstreamWriteState::Unknown,
            r is Err ==> final(self).spec_write() == old(self).spec_write(),
            final(self).spec_phase() == old(self).spec_phase(),
            final(self).spec_downstream() == old(self).spec_downstream(),
            final(self).spec_cancelled() == old(self).spec_cancelled(),
            final(self).spec_permit() == old(self).spec_permit(),
    {
        match self.phase {
            SendPhase::DownstreamCommitted | SendPhase::Cancelled => {
                return Err(AttemptTransitionError::InvalidPhase);
            },
            _ => {},
        }
        self.write = UpstreamWriteState::Unknown;
        Ok(())
    }

    /// Records that upstream response headers were observed.
    pub fn upstream_response_observed(&mut self) -> (r: Result<(), AttemptTransitionError>)
        ensures
            old(self).spec_phase() == SendPhase::RequestWriteStarted <==> r is Ok,
            r is Ok ==> final(self).spec_phase() == SendPhase::UpstreamResponseObserved,
            r is Err ==> final(self).spec_phase() == old(self).spec_phase(),
            final(self).spec_write() == old(self).spec_write(),
            final(self).spec_downstream() == old(self).spec_downstream(),
            final(self).spec_cancelled() == old(self).spec_cancelled(),
            final(self).spec_permit() == old(self).spec_permit(),
    {
        if self.phase != SendPhase::RequestWriteStarted {
            return Err(AttemptTransitionError::InvalidPhase);
        }
        self.phase = SendPhase::UpstreamResponseObserved;
        Ok(())
    }

    /// Records that the first protocol-confirmed semantic event was observed.
    pub fn first_semantic_event_observed(&mut self) -> (r: Result<(), AttemptTransitionError>)
        ensures
            old(self).spec_phase() == SendPhase::UpstreamResponseObserved <==> r is Ok,
            r is Ok ==> final(self).spec_phase() == SendPhase::FirstSemanticEventObserved,
            r is Err ==> final(self).spec_phase() == old(self).spec_phase(),
            final(self).spec_write() == old(self).spec_write(),
            final(self).spec_downstream() == old(self).spec_downstream(),
            final(self).spec_cancelled() == old(self).spec_cancelled(),
            final(self).spec_permit() == old(self).spec_permit(),
    {
        if self.phase != SendPhase::UpstreamResponseObserved {
            return Err(AttemptTransitionError::InvalidPhase);
        }
        self.phase = SendPhase::FirstSemanticEventObserved;
        Ok(())
    }

    /// Records that response semantics were committed downstream.
    pub fn downstream_committed(&mut self) -> (r: Result<(), AttemptTransitionError>)
        ensures
            (old(self).spec_phase() == SendPhase::UpstreamResponseObserved || old(self).spec_phase()
                == SendPhase::FirstSemanticEventObserved) <==> r is Ok,
            r is Ok ==> final(self).spec_phase() == SendPhase::DownstreamCommitted && final(self).spec_downstream()
                == DownstreamCommitState::Committed,
            r is Err ==> final(self).spec_phase() == old(self).spec_phase() && final(self).spec_downstream()
                == old(self).spec_downstream(),
            final(self).spec_write() == old(self).spec_write(),
            final(self).spec_cancelled() == old(self).spec_cancelled(),
            final(self).spec_permit() == old(self).spec_permit(),
    {
        match self.phase {
            SendPhase::UpstreamResponseObserved | SendPhase::FirstSemanticEventObserved => {},
            _ => {
                return Err(AttemptTransitionError::InvalidPhase);
            },
        }
        self.phase = SendPhase::DownstreamCommitted;
        self.downstream = DownstreamCommitState::Committed;
        Ok(())
    }

    /// Records a client cancellation; an observed semantic event is never erased by it.
    pub fn cancel(&mut self) -> (r: Result<(), AttemptTransitionError>)
        ensures
            !(old(self).spec_cancelled() || old(self).spec_phase() == SendPhase::DownstreamCommitted) <==> r is Ok,
            r is Ok ==> final(self).spec_cancelled() && final(self).spec_phase() == (if old(self).spec_phase()
                == SendPhase::FirstSemanticEventObserved {
                SendPhase::FirstSemanticEventObserved
            } else {
                SendPhase::Cancelled
            }),
            r is Err ==> final(self).spec_cancelled() == old(self).spec_cancelled() && final(self).spec_phase()
                == old(self).spec_phase(),
            final(self).spec_write() == old(self).spec_write(),
            final(self).spec_downstream() == old(self).spec_downstream(),
            final(self).spec_permit() == old(self).spec_permit(),
    {
        if self.cancelled || self.phase == SendPhase::DownstreamCommitted {
            return Err(AttemptTransitionError::InvalidPhase);
        }
        self.cancelled = true;
        if self.phase != SendPhase::FirstSemanticEventObserved {
            self.phase = SendPhase::Cancelled;
        }
        Ok(())
    }

    /// Ends the attempt and binds its unforgeable outcome to the permit.
    pub fn finish(self, failure: AttemptFailure, trusted_rejection: Option<TrustedPreExecutionRejection>) -> (r:
        AttemptCompletion<'s, 'c>)
        ensures
            r.spec_permit() == self.spec_permit(),
            r.spec_outcome().spec_failure() == failure,
            r.spec_outcome().spec_phase() == self.spec_phase(),
            r.spec_outcome().spec_write() == self.spec_write(),
            r.spec_outcome().spec_downstream() == self.spec_downstream(),
            r.spec_outcome().spec_cancelled() == self.spec_cancelled(),
            r.spec_outcome().spec_delivery() == delivery_after(
                self.spec_phase(),
                self.spec_write(),
                trusted_rejection is Some,
            ),
            r.spec_outcome().spec_charge() == charge_for(r.spec_outcome().spec_delivery()),
    {
        let delivery = if self.write == UpstreamWriteState::Unknown || self.phase
            == SendPhase::FirstSemanticEventObserved || self.phase == SendPhase::DownstreamCommitted {
            DeliveryState::DeliveryUnknown
        } else if self.write == UpstreamWriteState::NoBytesProven {
            DeliveryState::NotSent
        } else if trusted_rejection.is_some() {
            DeliveryState::PreExecutionRejected
        } else {
            DeliveryState::DeliveryUnknown
        };
        let charge = match delivery {
            DeliveryState::NotSent | DeliveryState::PreExecutionRejected => ChargeState::NotCharged,
            DeliveryState::DeliveryUnknown => ChargeState::Unknown,
        };
        AttemptCompletion::new(
            self.permit,
            AttemptOutcome {
                failure,
                phase: self.phase,
                write: self.write,
                downstream: self.downstream,
                delivery,
                charge,
                cancelled: self.cancelled,
            },
        )
    }
}

/// The fixed-size, unforgeable result of one attempt.
#[derive(Debug)]
pub struct AttemptOutcome {
    failure: AttemptFailure,
    phase: SendPhase,
    write: UpstreamWriteState,
    downstream: DownstreamCommitState,
    delivery: DeliveryState,
    charge: ChargeState,
    cancelled: bool,
}

impl AttemptOutcome {
    /// The failure class.
    pub closed spec fn spec_failure(&self) -> AttemptFailure {
        self.failure
    }

    /// The final send phase.
    pub closed spec fn spec_phase(&self) -> SendPhase {
        self.phase
    }

    /// The final write state.
    pub closed spec fn spec_write(&self) -> UpstreamWriteState {
        self.write
    }

    /// The final downstream commit state.
    pub closed spec fn spec_downstream(&self) -> DownstreamCommitState {
        self.downstream
    }

    /// The conservative delivery state.
    pub closed spec fn spec_delivery(&self) -> DeliveryState {
        self.delivery
    }

    /// The conservative billing state.
    pub closed spec fn spec_charge(&self) -> ChargeState {
        self.charge
    }

    /// Whether the client cancelled.
    pub closed spec fn spec_cancelled(&self) -> bool {
        self.cancelled
    }

    /// Returns the failure class; it alone never decides replay.
    pub fn failure(&self) -> (r: AttemptFailure)
        ensures
            r == self.spec_failure(),
    {
        self.failure
    }

    /// Returns the final send phase.
    pub fn phase(&self) -> (r: SendPhase)
        ensures
            r == self.spec_phase(),
    {
        self.phase
    }

    /// Returns the final write state.
    pub fn write_state(&self) -> (r: UpstreamWriteState)
        ensures
            r == self.spec_write(),
    {
        self.write
    }

    /// Returns the downstream commit state.
    pub fn downstream_state(&self) -> (r: DownstreamCommitState)
        ensures
            r == self.spec_downstream(),
    {
        self.downstream
    }

    /// Returns the conservative delivery state.
    pub fn delivery(&self) -> (r: DeliveryState)
        ensures
            r == self.spec_delivery(),
    {
        self.delivery
    }

    /// Returns the conservative billing state.
    pub fn charge_state(&self) -> (r: ChargeState)
        ensures
            r == self.spec_charge(),
    {
        self.charge
    }

    /// Produces the unique replay verdict; it never decides the concrete routing action.
    pub fn replay_decision(&self) -> (r: ReplayDecision)
        ensures
            r == decision_for(
                self.spec_failure(),
                self.spec_phase(),
                self.spec_downstream(),
                self.spec_delivery(),
                self.spec_cancelled(),
            ),
    {
        if self.downstream == DownstreamCommitState::Committed {
            return ReplayDecision::Stop(ReplayStopReason::DownstreamCommitted);
        }
        if self.cancelled || self.failure == AttemptFailure::Cancelled || self.phase == SendPhase::Cancelled {
            return ReplayDecision::Stop(ReplayStopReason::Cancelled);
        }
        if self.phase == SendPhase::FirstSemanticEventObserved {
            return ReplayDecision::Stop(ReplayStopReason::SemanticEventObserved);
        }
        match self.delivery {
            DeliveryState::NotSent => ReplayDecision::Permit(ReplayPermitReason::NotSent),
            DeliveryState::PreExecutionRejected => ReplayDecision::Permit(ReplayPermitReason::PreExecutionRejected),
            DeliveryState::DeliveryUnknown => ReplayDecision::Stop(ReplayStopReason::DeliveryUnknown),
        }
    }
}

/// Law: a replay is stopped first by a downstream commit, then by any cancellation (of the
/// tracker, the failure class or the phase), then by an observed semantic event; only an
/// attempt free of all three is judged by its delivery.
pub proof fn lemma_stop_precedence(
    failure: AttemptFailure,
    phase: SendPhase,
    downstream: DownstreamCommitState,
    delivery: DeliveryState,
    cancelled: bool,
)
    ensures
        downstream == DownstreamCommitState::Committed ==> decision_for(failure, phase, downstream, delivery, cancelled)
            == ReplayDecision::Stop(ReplayStopReason::DownstreamCommitted),
        downstream != DownstreamCommitState::Committed && (cancelled || failure == AttemptFailure::Cancelled || phase
            == SendPhase::Cancelled) ==> decision_for(failure, phase, downstream, delivery, cancelled)
            == ReplayDecision::Stop(ReplayStopReason::Cancelled),
        downstream != DownstreamCommitState::Committed && !cancelled && failure != AttemptFailure::Cancelled && phase
            == SendPhase::FirstSemanticEventObserved ==> decision_for(failure, phase, downstream, delivery, cancelled)
            == ReplayDecision::Stop(ReplayStopReason::SemanticEventObserved),
        decision_for(failure, phase, downstream, delivery, cancelled) is Permit ==> delivery != DeliveryState::DeliveryUnknown,
{
}

/// Law: the failure class alone never decides a replay: two attempts with the same recorded
/// facts whose failure classes are not a cancellation get the same verdict.
pub proof fn lemma_failure_class_does_not_decide(
    f1: AttemptFailure,
    f2: AttemptFailure,
    phase: SendPhase,
    downstream: DownstreamCommitState,
    delivery: DeliveryState,
    cancelled: bool,
)
    requires
        f1 != AttemptFailure::Cancelled,
        f2 != AttemptFailure::Cancelled,
    ensures
        decision_for(f1, phase, downstream, delivery, cancelled) == decision_for(f2, phase, downstream, delivery, cancelled),
{
}

/// Law: an attempt that is not committed downstream, not cancelled and has shown no semantic
/// event is permitted exactly when nothing was sent (reason `NotSent`) or a trusted
/// pre-execution rejection came back (reason `PreExecutionRejected`), whatever its failure
/// class; an unknown delivery stops it.
pub proof fn lemma_unsent_attempt_is_replayable(failure: AttemptFailure, phase: SendPhase, delivery: DeliveryState)
    requires
        failure != AttemptFailure::Cancelled,
        phase != SendPhase::Cancelled,
        phase != SendPhase::FirstSemanticEventObserved,
    ensures
        delivery == DeliveryState::NotSent ==> decision_for(
            failure,
            phase,
            DownstreamCommitState::NotCommitted,
            delivery,
            false,
        ) == ReplayDecision::Permit(ReplayPermitReason::NotSent),
        delivery == DeliveryState::PreExecutionRejected ==> decision_for(
            failure,
            phase,
            DownstreamCommitState::NotCommitted,
            delivery,
            false,
        ) == ReplayDecision::Permit(ReplayPermitReason::PreExecutionRejected),
        delivery == DeliveryState::DeliveryUnknown ==> decision_for(
            failure,
            phase,
            DownstreamCommitState::NotCommitted,
            delivery,
            false,
        ) == ReplayDecision::Stop(ReplayStopReason::DeliveryUnknown),
{
}

/// Law: once request bytes may have been written, only a trusted pre-execution rejection can
/// permit a replay; an ordinary rate limit or overload never does, whatever the failure class.
pub proof fn lemma_written_request_needs_trusted_rejection(
    failure: AttemptFailure,
    phase: SendPhase,
    downstream: DownstreamCommitState,
    cancelled: bool,
)
    ensures
        decision_for(
            failure,
            phase,
            downstream,
            delivery_after(phase, UpstreamWriteState::BytesMayHaveBeenWritten, false),
            cancelled,
        ) is Stop,
{
}

/// Law: a permitted replay always comes with a delivery state that proves non-execution and
/// with no possible charge; committed, cancelled or semantically observed attempts always stop.
pub proof fn lemma_permit_implies_not_charged(
    failure: AttemptFailure,
    phase: SendPhase,
    write: UpstreamWriteState,
    downstream: DownstreamCommitState,
    cancelled: bool,
    trusted_rejection: bool,
)
    ensures
        decision_for(failure, phase, downstream, delivery_after(phase, write, trusted_rejection), cancelled)
            is Permit ==> {
            &&& charge_for(delivery_after(phase, write, trusted_rejection)) == ChargeState::NotCharged
            &&& downstream == DownstreamCommitState::NotCommitted
            &&& !cancelled
            &&& failure != AttemptFailure::Cancelled
            &&& phase != SendPhase::FirstSemanticEventObserved
            &&& phase != SendPhase::DownstreamCommitted
            &&& phase != SendPhase::Cancelled
        },
{
}

/// Law: a proven zero-byte write takes precedence over any trusted rejection.
pub proof fn lemma_zero_write_proof_takes_precedence(phase: SendPhase, trusted_rejection: bool)
    requires
        phase != SendPhase::FirstSemanticEventObserved,
        phase != SendPhase::DownstreamCommitted,
    ensures
        delivery_after(phase, UpstreamWriteState::NoBytesProven, trusted_rejection) == DeliveryState::NotSent,
{
}

} // verus!
