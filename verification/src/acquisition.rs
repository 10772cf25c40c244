//! Decisions of the device that runs the camera in a thread of its own and
//! broadcasts its images: when a running acquisition is shared, how a sent
//! image affects the stream, how the thread reacts to the end of a run, and
//! how a lagging subscriber is told how many images it missed.
use vstd::prelude::*;

use crate::status::CameraStatus;
use crate::wrapper::StreamingAction;

verus! {

/// A running acquisition is shared with a new subscriber when, counting the
/// new one, it has more than one receiver; otherwise it is shut down and a
/// new one is started.
pub fn keep_shared_acquisition(receiver_count: usize) -> (r: bool)
    ensures
        r == (receiver_count > 1),
{
    receiver_count > 1
}

/// What a subscriber to 8-bit luma images receives from the broadcast.
#[derive(Debug, Clone, Copy, PartialEq, Eq, Structural)]
pub enum BroadcastItem {
    /// An image in the 8-bit luma format.
    Luma8Image,
    /// An image in another format.
    OtherImage,
    /// The subscriber lagged behind and missed images.
    Lagged,
}

/// A subscription to 8-bit luma images goes on while it receives such
/// images; it ends at the first image of another format and at the first
/// lag.
pub fn keeps_luma_stream(item: BroadcastItem) -> (r: bool)
    ensures
        r == (item == BroadcastItem::Luma8Image),
{
    match item {
        BroadcastItem::Luma8Image => true,
        BroadcastItem::OtherImage => false,
        BroadcastItem::Lagged => false,
    }
}

/// The step and the status to publish after an image reached `receivers`
/// subscribers, or `None` when sending failed.
pub open spec fn broadcast_response(receivers: Option<usize>) -> (StreamingAction, Option<CameraStatus>) {
    match receivers {
        Some(n) => if n > 0 {
            (StreamingAction::Continue, Some(CameraStatus::Running))
        } else {
            (StreamingAction::Stop, None)
        },
        None => (StreamingAction::Stop, None),
    }
}

/// What the frame callback does after an image was broadcast: `receivers`
/// is the number of subscribers that got it, or `None` when sending failed.
/// While someone listens the status is `Running` and streaming goes on;
/// otherwise streaming stops.
pub fn on_image_broadcast(receivers: Option<usize>) -> (r: (StreamingAction, Option<CameraStatus>))
    ensures
        r == broadcast_response(receivers),
{
    match receivers {
        Some(n) => {
            if n > 0 {
                (StreamingAction::Continue, Some(CameraStatus::Running))
            } else {
                (StreamingAction::Stop, None)
            }
        },
        None => (StreamingAction::Stop, None),
    }
}

/// How one run of the camera ended.
#[derive(Debug, Clone, Copy, PartialEq, Eq, Structural)]
pub enum RunOutcome {
    /// The run ended with `StreamingAction::Stop`.
    Stopped,
    /// The run ended with `StreamingAction::Continue`.
    Continued,
    /// The run failed.
    Failed,
}

/// What the acquisition thread does after a run.
#[derive(Debug, Clone, Copy, PartialEq, Eq, Structural)]
pub enum SupervisorStep {
    /// Leave the loop; the thread then reports `NotConnected`.
    Finish,
    /// Start the next run at once.
    Restart,
    /// Report `Error`, wait a second, then start the next run.
    RetryAfterError,
}

/// The step after a run that ended with `outcome`.
pub open spec fn supervisor_step(outcome: RunOutcome, termination_requested: bool) -> SupervisorStep {
    match outcome {
        RunOutcome::Stopped => SupervisorStep::Finish,
        RunOutcome::Continued => SupervisorStep::Restart,
        RunOutcome::Failed => if termination_requested {
            SupervisorStep::Finish
        } else {
            SupervisorStep::RetryAfterError
        },
    }
}

/// Decides what follows a run: a stopped run ends the thread, a continued
/// one is started again, and a failed one is retried after reporting the
/// error unless termination was requested.
pub fn after_run(outcome: RunOutcome, termination_requested: bool) -> (r: SupervisorStep)
    ensures
        r == supervisor_step(outcome, termination_requested),
{
    match outcome {
        RunOutcome::Stopped => SupervisorStep::Finish,
        RunOutcome::Continued => SupervisorStep::Restart,
        RunOutcome::Failed => {
            if termination_requested {
                SupervisorStep::Finish
            } else {
                SupervisorStep::RetryAfterError
            }
        },
    }
}

/// The status the connect hook publishes: `Running` on the first
/// connection, nothing afterwards.
pub open spec fn connect_status(first_connection_attempt: bool) -> Option<CameraStatus> {
    if first_connection_attempt {
        Some(CameraStatus::Running)
    } else {
        None
    }
}

/// Remembers whether the camera has connected before, so that only the
/// first successful connection reports `Running` from the connect hook.
#[derive(Debug, Clone, Copy, PartialEq, Eq, Structural)]
pub struct ConnectionTracker {
    pub first_connection_attempt: bool,
}

impl ConnectionTracker {
    /// No connection happened yet.
    pub fn new() -> (r: ConnectionTracker)
        ensures
            r.first_connection_attempt,
    {
        ConnectionTracker { first_connection_attempt: true }
    }

    /// Records a successful connection; returns the status to report, which
    /// is `Running` on the first connection and nothing afterwards.
    pub fn on_connected(&mut self) -> (r: Option<CameraStatus>)
        ensures
            r == connect_status(old(self).first_connection_attempt),
            !final(self).first_connection_attempt,
    {
        if self.first_connection_attempt {
            self.first_connection_attempt = false;
            Some(CameraStatus::Running)
        } else {
            None
        }
    }
}

/// The count reported to a subscriber that lagged behind by `lagged`
/// images: the larger of `lagged` and `u16::MAX`, truncated to 16 bits. A
/// lag up to `u16::MAX` is reported as `u16::MAX`; a larger one by its low 16
/// bits.
pub fn missed_items(lagged: u64) -> (r: u16)
    ensures
        r == if lagged <= 0xffff {
            0xffffu16
        } else {
            (lagged % 0x10000) as u16
        },
{
    let widest: u64 = if lagged > 0xffff {
        lagged
    } else {
        0xffff
    };
    let r = #[verifier::truncate] (widest as u16);
    assert(r == widest % 0x10000) by (bit_vector)
        requires
            r == #[verifier::truncate] (widest as u16),
    ;
    r
}

/// One run of the camera as the acquisition thread goes through it: whether
/// the camera connected, the number of subscribers each image reached
/// (`None` when sending failed), how the run ended, and whether termination
/// was requested when it ended.
pub struct RunRecord {
    pub connected: bool,
    pub deliveries: Seq<Option<usize>>,
    pub outcome: RunOutcome,
    pub termination_requested: bool,
}

/// The statuses an optional status contributes.
pub open spec fn status_seq(status: Option<CameraStatus>) -> Seq<CameraStatus> {
    match status {
        Some(s) => seq![s],
        None => seq![],
    }
}

/// The statuses published for the images of a run, in order.
pub open spec fn delivery_statuses(deliveries: Seq<Option<usize>>) -> Seq<CameraStatus>
    decreases deliveries.len(),
{
    if deliveries.len() == 0 {
        seq![]
    } else {
        delivery_statuses(deliveries.drop_last()) + status_seq(
            broadcast_response(deliveries.last()).1,
        )
    }
}

/// The statuses published during one run: by the connect hook, for each
/// image, and `Error` when the run failed and is retried.
pub open spec fn run_statuses(run: RunRecord, first_connection_attempt: bool) -> Seq<CameraStatus> {
    (if run.connected {
        status_seq(connect_status(first_connection_attempt))
    } else {
        seq![]
    }) + delivery_statuses(run.deliveries) + (if supervisor_step(run.outcome, run.termination_requested)
        == SupervisorStep::RetryAfterError {
        seq![CameraStatus::Error]
    } else {
        seq![]
    })
}

/// The statuses the acquisition thread publishes over these runs: the runs
/// are taken in order until one finishes the thread, which then publishes
/// `NotConnected`. Runs after that are never started.
pub open spec fn thread_statuses(runs: Seq<RunRecord>, first_connection_attempt: bool) -> Seq<CameraStatus>
    decreases runs.len(),
{
    if runs.len() == 0 {
        seq![]
    } else {
        let run = runs[0];
        let published = run_statuses(run, first_connection_attempt);
        if supervisor_step(run.outcome, run.termination_requested) == SupervisorStep::Finish {
            published.push(CameraStatus::NotConnected)
        } else {
            published + thread_statuses(
                runs.drop_first(),
                first_connection_attempt && !run.connected,
            )
        }
    }
}

/// Some run finishes the thread.
pub open spec fn thread_finishes(runs: Seq<RunRecord>) -> bool {
    exists|i: int|
        0 <= i < runs.len() && supervisor_step(
            (#[trigger] runs[i]).outcome,
            runs[i].termination_requested,
        ) == SupervisorStep::Finish
}

proof fn lemma_delivery_statuses_running(deliveries: Seq<Option<usize>>)
    ensures
        forall|k: int|
            0 <= k < delivery_statuses(deliveries).len() ==> #[trigger] delivery_statuses(deliveries)[k]
                == CameraStatus::Running,
    decreases deliveries.len(),
{
    if deliveries.len() > 0 {
        lemma_delivery_statuses_running(deliveries.drop_last());
        let rest = delivery_statuses(deliveries.drop_last());
        let tail = status_seq(broadcast_response(deliveries.last()).1);
        assert forall|k: int|
            0 <= k < delivery_statuses(deliveries).len() implies #[trigger] delivery_statuses(deliveries)[k]
            == CameraStatus::Running by {
            if k >= rest.len() {
                assert(delivery_statuses(deliveries)[k] == tail[k - rest.len()]);
            } else {
                assert(delivery_statuses(deliveries)[k] == rest[k]);
            }
        }
    }
}

/// A thread that finishes publishes `NotConnected` last, whatever happened
/// in its runs.
pub proof fn lemma_thread_ends_not_connected(runs: Seq<RunRecord>, first_connection_attempt: bool)
    requires
        thread_finishes(runs),
    ensures
        thread_statuses(runs, first_connection_attempt).len() > 0,
        thread_statuses(runs, first_connection_attempt).last() == CameraStatus::NotConnected,
    decreases runs.len(),
{
    let run = runs[0];
    if supervisor_step(run.outcome, run.termination_requested) != SupervisorStep::Finish {
        let rest = runs.drop_first();
        let i = choose|i: int|
            0 <= i < runs.len() && supervisor_step(
                (#[trigger] runs[i]).outcome,
                runs[i].termination_requested,
            ) == SupervisorStep::Finish;
        assert(i > 0);
        assert(rest[i - 1] == runs[i]);
        lemma_thread_ends_not_connected(rest, first_connection_attempt && !run.connected);
        let published = run_statuses(run, first_connection_attempt);
        let later = thread_statuses(rest, first_connection_attempt && !run.connected);
        assert((published + later).last() == later.last());
    }
}

/// `Error` is published only after a run that failed while no termination
/// was requested; the connect hook and the images only publish `Running`.
pub proof fn lemma_error_only_after_failed_run(runs: Seq<RunRecord>, first_connection_attempt: bool)
    ensures
        thread_statuses(runs, first_connection_attempt).contains(CameraStatus::Error) ==> exists|i: int|
            0 <= i < runs.len() && (#[trigger] runs[i]).outcome == RunOutcome::Failed
                && !runs[i].termination_requested,
    decreases runs.len(),
{
    if runs.len() > 0 {
        let run = runs[0];
        let rest = runs.drop_first();
        let next_first = first_connection_attempt && !run.connected;
        lemma_error_only_after_failed_run(rest, next_first);
        lemma_delivery_statuses_running(run.deliveries);
        let hook = if run.connected {
            status_seq(connect_status(first_connection_attempt))
        } else {
            seq![]
        };
        let images = delivery_statuses(run.deliveries);
        let failure = if supervisor_step(run.outcome, run.termination_requested)
            == SupervisorStep::RetryAfterError {
            seq![CameraStatus::Error]
        } else {
            seq![]
        };
        let published = run_statuses(run, first_connection_attempt);
        assert(published == hook + images + failure);
        let all = thread_statuses(runs, first_connection_attempt);
        if all.contains(CameraStatus::Error) {
            let k = choose|k: int| 0 <= k < all.len() && all[k] == CameraStatus::Error;
            if k < published.len() {
                if k < hook.len() {
                    assert(published[k] == hook[k]);
                } else if k < hook.len() + images.len() {
                    assert(published[k] == images[k - hook.len()]);
                } else {
                    assert(published[k] == failure[k - hook.len() - images.len()]);
                    assert(runs[0] == run);
                }
            } else if supervisor_step(run.outcome, run.termination_requested) == SupervisorStep::Finish {
                assert(k == published.len());
                assert(all[k] == CameraStatus::NotConnected);
            } else {
                let later = thread_statuses(rest, next_first);
                assert(all == published + later);
                assert(later[k - published.len()] == CameraStatus::Error);
                assert(later.contains(CameraStatus::Error));
                let i = choose|i: int|
                    0 <= i < rest.len() && (#[trigger] rest[i]).outcome == RunOutcome::Failed
                        && !rest[i].termination_requested;
                assert(runs[i + 1] == rest[i]);
            }
        }
    }
}


/// Streaming goes on exactly when at least one subscriber received the
/// image, and then the camera is reported `Running`; when nobody received
/// it, or sending failed, streaming stops and no status is published.
pub proof fn lemma_streaming_continues_while_received(receivers: Option<usize>)
    ensures
        (broadcast_response(receivers).0 == StreamingAction::Continue) <==> (receivers matches Some(n)
            && n >= 1),
        (broadcast_response(receivers).0 == StreamingAction::Continue) ==> broadcast_response(receivers).1
            == Some(CameraStatus::Running),
        (broadcast_response(receivers).0 != StreamingAction::Continue) ==> broadcast_response(
            receivers,
        ).0 == StreamingAction::Stop && broadcast_response(receivers).1 is None,
{
}

/// Having more subscribers never stops a stream that fewer would keep going.
pub proof fn lemma_more_receivers_keep_streaming(fewer: usize, more: usize)
    requires
        fewer <= more,
        broadcast_response(Some(fewer)).0 == StreamingAction::Continue,
    ensures
        broadcast_response(Some(more)) == broadcast_response(Some(fewer)),
{
}

/// After a run the thread finishes exactly when the run stopped, or failed
/// while termination was requested; it restarts at once exactly when the
/// run asked to continue; and it reports an error and retries exactly when
/// the run failed with no termination requested. The termination flag only
/// matters for a failed run.
pub proof fn lemma_supervisor_steps(outcome: RunOutcome, termination_requested: bool)
    ensures
        (supervisor_step(outcome, termination_requested) == SupervisorStep::Finish) <==> (outcome
            == RunOutcome::Stopped || (outcome == RunOutcome::Failed && termination_requested)),
        (supervisor_step(outcome, termination_requested) == SupervisorStep::Restart) <==> outcome
            == RunOutcome::Continued,
        (supervisor_step(outcome, termination_requested) == SupervisorStep::RetryAfterError) <==> (
        outcome == RunOutcome::Failed && !termination_requested),
        outcome != RunOutcome::Failed ==> supervisor_step(outcome, true) == supervisor_step(
            outcome,
            false,
        ),
{
}

/// A run that ended with `Stop` finishes the thread, whether or not
/// termination was requested.
pub proof fn lemma_stopped_run_finishes(termination_requested: bool)
    ensures
        supervisor_step(RunOutcome::Stopped, termination_requested) == SupervisorStep::Finish,
{
}

/// Only the first successful connection reports `Running` from the connect
/// hook; every later one reports nothing.
pub proof fn lemma_only_first_connection_reports_running(first_connection_attempt: bool)
    ensures
        first_connection_attempt ==> connect_status(first_connection_attempt) == Some(CameraStatus::Running),
        !first_connection_attempt ==> connect_status(first_connection_attempt) is None,
{
}

} // verus!
