//! The decisions of starting and stopping a recording. Starting is a sequence
//! of outside steps (checking the transcription model, preparing audio input,
//! choosing the thread, marking it, starting capture); the caller performs the
//! action each step asks for and hands back what happened.

use vstd::prelude::*;

use crate::text::owned;
use crate::threads::model::{ThreadMetadata, ThreadStatus};
use crate::meetings::state::sat_add;

verus! {

/// Where a recording start stands.
#[derive(Clone, Debug, PartialEq, Eq)]
pub enum StartPhase {
    CheckingTranscription,
    PreparingInput,
    SelectingThread,
    MarkingThread { newly_created: bool },
    Activating { newly_created: bool },
    Started,
    Failed,
}

/// What the last outside step reported.
#[derive(Debug, PartialEq, Eq)]
pub enum StartEvent {
    TranscriptionChecked { ready: bool },
    InputPrepared(Result<(), String>),
    /// The thread was chosen; `Ok(true)` when it was created for this recording.
    ThreadSelected(Result<bool, String>),
    ThreadMarked(Result<(), String>),
    Activated(Result<(), String>),
}

/// The next outside step.
#[derive(Clone, Debug, PartialEq, Eq)]
pub enum StartAction {
    PrepareInput,
    SelectThread,
    MarkThreadRecording,
    Activate,
    /// Activation failed in a thread made for this recording: remove it, then
    /// report the error.
    DiscardThread(String),
    /// Activation failed in an existing thread: restore its readiness, then
    /// report the error.
    MarkAborted(String),
    Finish,
    Fail(String),
    /// The event does not belong to this phase.
    Ignore,
}

pub enum StartEventView {
    TranscriptionChecked { ready: bool },
    InputPrepared(Result<(), Seq<char>>),
    ThreadSelected(Result<bool, Seq<char>>),
    ThreadMarked(Result<(), Seq<char>>),
    Activated(Result<(), Seq<char>>),
}

pub open spec fn unit_result(r: Result<(), String>) -> Result<(), Seq<char>> {
    match r {
        Ok(()) => Ok(()),
        Err(e) => Err(e@),
    }
}

impl View for StartEvent {
    type V = StartEventView;

    open spec fn view(&self) -> StartEventView {
        match self {
            StartEvent::TranscriptionChecked { ready } => StartEventView::TranscriptionChecked {
                ready: *ready,
            },
            StartEvent::InputPrepared(r) => StartEventView::InputPrepared(unit_result(*r)),
            StartEvent::ThreadSelected(r) => StartEventView::ThreadSelected(
                match r {
                    Ok(b) => Ok(*b),
                    Err(e) => Err(e@),
                },
            ),
            StartEvent::ThreadMarked(r) => StartEventView::ThreadMarked(unit_result(*r)),
            StartEvent::Activated(r) => StartEventView::Activated(unit_result(*r)),
        }
    }
}

pub enum StartActionView {
    PrepareInput,
    SelectThread,
    MarkThreadRecording,
    Activate,
    DiscardThread(Seq<char>),
    MarkAborted(Seq<char>),
    Finish,
    Fail(Seq<char>),
    Ignore,
}

impl View for StartAction {
    type V = StartActionView;

    open spec fn view(&self) -> StartActionView {
        match self {
            StartAction::PrepareInput => StartActionView::PrepareInput,
            StartAction::SelectThread => StartActionView::SelectThread,
            StartAction::MarkThreadRecording => StartActionView::MarkThreadRecording,
            StartAction::Activate => StartActionView::Activate,
            StartAction::DiscardThread(e) => StartActionView::DiscardThread(e@),
            StartAction::MarkAborted(e) => StartActionView::MarkAborted(e@),
            StartAction::Finish => StartActionView::Finish,
            StartAction::Fail(e) => StartActionView::Fail(e@),
            StartAction::Ignore => StartActionView::Ignore,
        }
    }
}

/// One step of a recording start. Audio input is prepared before a thread is
/// chosen, so a failed start never leaves an empty thread behind.
pub open spec fn start_step_spec(phase: StartPhase, event: StartEventView) -> (StartPhase, StartActionView) {
    match (phase, event) {
        (StartPhase::CheckingTranscription, StartEventView::TranscriptionChecked { ready }) => if ready {
            (StartPhase::PreparingInput, StartActionView::PrepareInput)
        } else {
            (
                StartPhase::Failed,
                StartActionView::Fail("Parakeet model is required before recording"@),
            )
        },
        (StartPhase::PreparingInput, StartEventView::InputPrepared(r)) => match r {
            Ok(()) => (StartPhase::SelectingThread, StartActionView::SelectThread),
            Err(e) => (StartPhase::Failed, StartActionView::Fail(e)),
        },
        (StartPhase::SelectingThread, StartEventView::ThreadSelected(r)) => match r {
            Ok(newly_created) => (
                StartPhase::MarkingThread { newly_created },
                StartActionView::MarkThreadRecording,
            ),
            Err(e) => (StartPhase::Failed, StartActionView::Fail(e)),
        },
        (StartPhase::MarkingThread { newly_created }, StartEventView::ThreadMarked(r)) => match r {
            Ok(()) => (StartPhase::Activating { newly_created }, StartActionView::Activate),
            Err(e) => (StartPhase::Failed, StartActionView::Fail(e)),
        },
        (StartPhase::Activating { newly_created }, StartEventView::Activated(r)) => match r {
            Ok(()) => (StartPhase::Started, StartActionView::Finish),
            Err(e) => if newly_created {
                (StartPhase::Failed, StartActionView::DiscardThread(e))
            } else {
                (StartPhase::Failed, StartActionView::MarkAborted(e))
            },
        },
        (p, _) => (p, StartActionView::Ignore),
    }
}

/// Advances a recording start by one step.
pub fn start_step(phase: StartPhase, event: StartEvent) -> (r: (StartPhase, StartAction))
    ensures
        (r.0, r.1@) == start_step_spec(phase, event@),
{
    match (phase, event) {
        (StartPhase::CheckingTranscription, StartEvent::TranscriptionChecked { ready }) => if ready {
            (StartPhase::PreparingInput, StartAction::PrepareInput)
        } else {
            (
                StartPhase::Failed,
                StartAction::Fail(owned("Parakeet model is required before recording")),
            )
        },
        (StartPhase::PreparingInput, StartEvent::InputPrepared(r)) => match r {
            Ok(()) => (StartPhase::SelectingThread, StartAction::SelectThread),
            Err(e) => (StartPhase::Failed, StartAction::Fail(e)),
        },
        (StartPhase::SelectingThread, StartEvent::ThreadSelected(r)) => match r {
            Ok(newly_created) => (
                StartPhase::MarkingThread { newly_created },
                StartAction::MarkThreadRecording,
            ),
            Err(e) => (StartPhase::Failed, StartAction::Fail(e)),
        },
        (StartPhase::MarkingThread { newly_created }, StartEvent::ThreadMarked(r)) => match r {
            Ok(()) => (StartPhase::Activating { newly_created }, StartAction::Activate),
            Err(e) => (StartPhase::Failed, StartAction::Fail(e)),
        },
        (StartPhase::Activating { newly_created }, StartEvent::Activated(r)) => match r {
            Ok(()) => (StartPhase::Started, StartAction::Finish),
            Err(e) => if newly_created {
                (StartPhase::Failed, StartAction::DiscardThread(e))
            } else {
                (StartPhase::Failed, StartAction::MarkAborted(e))
            },
        },
        (p, _) => (p, StartAction::Ignore),
    }
}

/// No thread is chosen before audio input is ready, and a start that fails
/// after choosing a thread made for it removes that thread again.
pub proof fn threads_are_chosen_only_after_input_is_ready(
    phase: StartPhase,
    event: StartEventView,
    error: Seq<char>,
)
    ensures
        start_step_spec(phase, event).1 is SelectThread ==> phase == StartPhase::PreparingInput
            && event == StartEventView::InputPrepared(Ok(())),
        phase == (StartPhase::Activating { newly_created: true }) && event
            == StartEventView::Activated(Err(error)) ==> start_step_spec(phase, event).1
            == StartActionView::DiscardThread(error),
        phase == (StartPhase::Activating { newly_created: false }) && event
            == StartEventView::Activated(Err(error)) ==> start_step_spec(phase, event).1
            == StartActionView::MarkAborted(error),
{
    match event {
        StartEventView::InputPrepared(r) => match r {
            Ok(u) => {
                assert(u == ());
            },
            Err(_) => {},
        },
        _ => {},
    }
}

/// The length of a stopped recording: the prior recording it resumed (if any)
/// plus this session, measured from the audio, or from the clock when the
/// audio cannot be measured.
pub open spec fn stopped_duration(resume_offset_ms: Option<u64>, measured_ms: Option<u64>, elapsed_ms: u64) -> u64 {
    sat_add(
        match resume_offset_ms {
            Some(o) => o,
            None => 0,
        },
        match measured_ms {
            Some(m) => m,
            None => elapsed_ms,
        },
    )
}

/// The length of a stopped recording.
pub fn stopped_duration_ms(resume_offset_ms: Option<u64>, measured_ms: Option<u64>, elapsed_ms: u64) -> (r: u64)
    ensures
        r == stopped_duration(resume_offset_ms, measured_ms, elapsed_ms),
{
    let offset = match resume_offset_ms {
        Some(o) => o,
        None => 0,
    };
    let session = match measured_ms {
        Some(m) => m,
        None => elapsed_ms,
    };
    offset.saturating_add(session)
}

/// A stopped recording's thread: idle, with its new duration, touched now.
pub fn persist_stopped_thread(metadata: &mut ThreadMetadata, duration_ms: u64, now_ms: u64)
    ensures
        *final(metadata) == (ThreadMetadata {
            status: ThreadStatus::Idle,
            duration_ms,
            updated_at_ms: now_ms,
            ..*old(metadata)
        }),
{
    metadata.duration_ms = duration_ms;
    metadata.status = ThreadStatus::Idle;
    metadata.updated_at_ms = now_ms;
}

} // verus!
