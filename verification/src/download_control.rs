//! Pausing, resuming and cancelling a model download.
//!
//! A download is controlled from the window while a worker reads the network or waits for a
//! helper process. The state and its transitions are here; what a transition asks of the outside
//! world, to signal the helper process or to wake the worker, is part of its result.
use vstd::prelude::*;

use crate::text;

verus! {

/// The error of a download that was cancelled.
pub const DOWNLOAD_CANCELLED_ERROR: &'static str = "模型下载已取消；未完成文件已保留，下次可以从已有进度继续。";

#[derive(Clone, Copy, Debug, PartialEq, Eq, Structural)]
pub enum DownloadState {
    Idle,
    Running,
    Paused,
    Cancelled,
}

/// What the helper process of a download is told.
#[derive(Clone, Copy, Debug, PartialEq, Eq, Structural)]
pub enum ProcessSignal {
    Pause,
    Resume,
    Cancel,
}

/// The state of the one model download and the helper process that works for it.
#[derive(Clone, Copy, Debug, PartialEq, Eq, Structural)]
pub struct DownloadControl {
    pub state: DownloadState,
    pub process_id: Option<u32>,
}

/// The right to run the download that `begin` started; it is given back to `finish`.
#[derive(Debug)]
pub struct DownloadSession {}

/// The outcome of a request: whether it was accepted, which process is to be signalled and
/// whether a waiting worker is to be woken.
#[derive(Clone, Copy, Debug, PartialEq, Eq)]
pub struct ControlStep {
    pub accepted: bool,
    pub signal: Option<(u32, ProcessSignal)>,
    pub wake: bool,
}

/// What a worker does between two reads.
#[derive(Clone, Copy, Debug, PartialEq, Eq, Structural)]
pub enum CheckpointStep {
    /// Go on reading.
    Proceed,
    /// Sleep until woken, then ask again.
    Wait,
}

/// A refused request changes nothing.
pub open spec fn refusal() -> ControlStep {
    ControlStep { accepted: false, signal: None, wake: false }
}

/// The signal to the registered process, when there is one.
pub open spec fn signal_to(process_id: Option<u32>, signal: ProcessSignal) -> Option<
    (u32, ProcessSignal),
> {
    match process_id {
        Some(process_id) => Some((process_id, signal)),
        None => None,
    }
}

fn registered_signal(process_id: Option<u32>, signal: ProcessSignal) -> (step: Option<
    (u32, ProcessSignal),
>)
    ensures
        step == signal_to(process_id, signal),
{
    match process_id {
        Some(process_id) => Some((process_id, signal)),
        None => None,
    }
}

/// The control after a request to pause.
pub open spec fn paused(control: DownloadControl) -> (DownloadControl, ControlStep) {
    if control.state == DownloadState::Running {
        (
            DownloadControl { state: DownloadState::Paused, ..control },
            ControlStep {
                accepted: true,
                signal: signal_to(control.process_id, ProcessSignal::Pause),
                wake: false,
            },
        )
    } else {
        (control, refusal())
    }
}

/// The control after a request to resume.
pub open spec fn resumed(control: DownloadControl) -> (DownloadControl, ControlStep) {
    if control.state == DownloadState::Paused {
        (
            DownloadControl { state: DownloadState::Running, ..control },
            ControlStep {
                accepted: true,
                signal: signal_to(control.process_id, ProcessSignal::Resume),
                wake: true,
            },
        )
    } else {
        (control, refusal())
    }
}

/// The control after a request to cancel.
pub open spec fn cancelled(control: DownloadControl) -> (DownloadControl, ControlStep) {
    if control.state == DownloadState::Running || control.state == DownloadState::Paused {
        (
            DownloadControl { state: DownloadState::Cancelled, ..control },
            ControlStep {
                accepted: true,
                signal: signal_to(control.process_id, ProcessSignal::Cancel),
                wake: true,
            },
        )
    } else {
        (control, refusal())
    }
}

/// The control before any download.
pub open spec fn idle() -> DownloadControl {
    DownloadControl { state: DownloadState::Idle, process_id: None }
}

impl DownloadControl {
    pub fn new() -> (control: Self)
        ensures
            control == idle(),
    {
        DownloadControl { state: DownloadState::Idle, process_id: None }
    }

    /// Starts a download. The helper process of an earlier one is forgotten.
    pub fn begin(&mut self) -> (session: DownloadSession)
        ensures
            *final(self) == (DownloadControl { state: DownloadState::Running, process_id: None }),
    {
        self.process_id = None;
        self.state = DownloadState::Running;
        DownloadSession {  }
    }

    pub fn state(&self) -> (state: DownloadState)
        ensures
            state == self.state,
    {
        self.state
    }

    /// Pauses a running download.
    pub fn pause(&mut self) -> (step: ControlStep)
        ensures
            (*final(self), step) == paused(*old(self)),
    {
        if self.state != DownloadState::Running {
            return ControlStep { accepted: false, signal: None, wake: false };
        }
        self.state = DownloadState::Paused;
        ControlStep {
            accepted: true,
            signal: registered_signal(self.process_id, ProcessSignal::Pause),
            wake: false,
        }
    }

    /// Resumes a paused download.
    pub fn resume(&mut self) -> (step: ControlStep)
        ensures
            (*final(self), step) == resumed(*old(self)),
    {
        if self.state != DownloadState::Paused {
            return ControlStep { accepted: false, signal: None, wake: false };
        }
        self.state = DownloadState::Running;
        ControlStep {
            accepted: true,
            signal: registered_signal(self.process_id, ProcessSignal::Resume),
            wake: true,
        }
    }

    /// Cancels a running or paused download.
    pub fn cancel(&mut self) -> (step: ControlStep)
        ensures
            (*final(self), step) == cancelled(*old(self)),
    {
        if self.state != DownloadState::Running && self.state != DownloadState::Paused {
            return ControlStep { accepted: false, signal: None, wake: false };
        }
        self.state = DownloadState::Cancelled;
        ControlStep {
            accepted: true,
            signal: registered_signal(self.process_id, ProcessSignal::Cancel),
            wake: true,
        }
    }

    /// Asked between two reads: whether the worker goes on, waits or gives up.
    pub fn checkpoint(&self) -> (step: Result<CheckpointStep, String>)
        ensures
            match step {
                Ok(CheckpointStep::Proceed) => self.state == DownloadState::Idle || self.state
                    == DownloadState::Running,
                Ok(CheckpointStep::Wait) => self.state == DownloadState::Paused,
                Err(error) => self.state == DownloadState::Cancelled && error@
                    == DOWNLOAD_CANCELLED_ERROR@,
            },
    {
        match self.state {
            DownloadState::Cancelled => Err(DOWNLOAD_CANCELLED_ERROR.to_string()),
            DownloadState::Paused => Ok(CheckpointStep::Wait),
            DownloadState::Idle => Ok(CheckpointStep::Proceed),
            DownloadState::Running => Ok(CheckpointStep::Proceed),
        }
    }

    /// Makes a helper process known. One that starts too late learns at once that the download is
    /// paused or cancelled.
    pub fn register_process(&mut self, process_id: u32) -> (signal: Option<(u32, ProcessSignal)>)
        ensures
            *final(self) == (DownloadControl { process_id: Some(process_id), ..*old(self) }),
            signal == (match old(self).state {
                DownloadState::Paused => Some((process_id, ProcessSignal::Pause)),
                DownloadState::Cancelled => Some((process_id, ProcessSignal::Cancel)),
                _ => None,
            }),
    {
        self.process_id = Some(process_id);
        match self.state {
            DownloadState::Paused => Some((process_id, ProcessSignal::Pause)),
            DownloadState::Cancelled => Some((process_id, ProcessSignal::Cancel)),
            DownloadState::Idle => None,
            DownloadState::Running => None,
        }
    }

    /// Forgets a helper process that has ended, unless another one has taken its place.
    pub fn clear_process(&mut self, process_id: u32)
        ensures
            *final(self) == (DownloadControl {
                process_id: if old(self).process_id == Some(process_id) {
                    None
                } else {
                    old(self).process_id
                },
                ..*old(self)
            }),
    {
        if let Some(current) = self.process_id {
            if current == process_id {
                self.process_id = None;
            }
        }
    }
}

impl DownloadSession {
    /// Ends the download: the control is idle again and a waiting worker is woken.
    pub fn finish(self, control: &mut DownloadControl) -> (step: ControlStep)
        ensures
            *final(control) == idle(),
            step == (ControlStep { accepted: true, signal: None, wake: true }),
    {
        control.process_id = None;
        control.state = DownloadState::Idle;
        ControlStep { accepted: true, signal: None, wake: true }
    }
}

/// The signals of a Unix system.
#[derive(Clone, Copy, Debug, PartialEq, Eq, Structural)]
pub enum UnixSignal {
    Stop,
    Continue,
    Terminate,
}

/// The Unix signals that a request means, in order. A stopped process does not act on the request
/// to terminate before it goes on.
pub open spec fn unix_signals(signal: ProcessSignal) -> Seq<UnixSignal> {
    match signal {
        ProcessSignal::Pause => seq![UnixSignal::Stop],
        ProcessSignal::Resume => seq![UnixSignal::Continue],
        ProcessSignal::Cancel => seq![UnixSignal::Continue, UnixSignal::Terminate],
    }
}

/// The process group that is signalled, and the signals. The helper processes lead groups of their
/// own, so that their children are reached too. A process number that no group can have is left
/// alone.
pub fn signal_process(process_id: u32, signal: ProcessSignal) -> (sent: Option<
    (i32, Vec<UnixSignal>),
>)
    ensures
        match sent {
            Some((group, signals)) => process_id <= i32::MAX && group == -(process_id as int)
                && signals@ == unix_signals(signal),
            None => process_id > i32::MAX,
        },
{
    if process_id > 0x7FFF_FFFF {
        return None;
    }
    let group: i32 = -(process_id as i32);
    let mut signals: Vec<UnixSignal> = Vec::new();
    match signal {
        ProcessSignal::Pause => {
            signals.push(UnixSignal::Stop);
        },
        ProcessSignal::Resume => {
            signals.push(UnixSignal::Continue);
        },
        ProcessSignal::Cancel => {
            signals.push(UnixSignal::Continue);
            signals.push(UnixSignal::Terminate);
        },
    }
    assert(signals@ =~= unix_signals(signal));
    Some((group, signals))
}

/// The control of the model download when the program starts.
pub fn model_download_control() -> (control: DownloadControl)
    ensures
        control == idle(),
{
    DownloadControl::new()
}

/// Whether an error says that the download was cancelled.
pub open spec fn tells_cancelled(error: Seq<char>) -> bool {
    text::occurs(error, DOWNLOAD_CANCELLED_ERROR@)
}

pub fn is_download_cancelled(error: &str) -> (cancelled: bool)
    ensures
        cancelled == tells_cancelled(error@),
{
    let chars = text::chars_of(error);
    text::contains(chars.as_slice(), DOWNLOAD_CANCELLED_ERROR)
}

/// The error of a cancelled download is recognised however it is wrapped.
pub proof fn wrapped_cancellation_is_recognised(before: Seq<char>, after: Seq<char>)
    ensures
        tells_cancelled(before + DOWNLOAD_CANCELLED_ERROR@ + after),
{
    let all = before + DOWNLOAD_CANCELLED_ERROR@ + after;
    let at = before.len() as int;
    assert(all.subrange(at, at + DOWNLOAD_CANCELLED_ERROR@.len()) == DOWNLOAD_CANCELLED_ERROR@);
    assert(text::occurs_at(all, DOWNLOAD_CANCELLED_ERROR@, at));
}

/// Resuming takes back a pause.
pub proof fn resume_takes_back_a_pause(control: DownloadControl)
    requires
        paused(control).1.accepted,
    ensures
        resumed(paused(control).0).1.accepted,
        resumed(paused(control).0).0 == control,
{
}

/// Nothing but the end of the download follows its cancellation.
pub proof fn cancellation_is_final(control: DownloadControl)
    requires
        cancelled(control).1.accepted,
    ensures
        ({
            let stopped = cancelled(control).0;
            &&& stopped.state == DownloadState::Cancelled
            &&& paused(stopped) == (stopped, refusal())
            &&& resumed(stopped) == (stopped, refusal())
            &&& cancelled(stopped) == (stopped, refusal())
        }),
{
}

/// Without a download nothing can be paused, resumed or cancelled.
pub proof fn idle_refuses_every_request(control: DownloadControl)
    requires
        control.state == DownloadState::Idle,
    ensures
        paused(control) == (control, refusal()),
        resumed(control) == (control, refusal()),
        cancelled(control) == (control, refusal()),
{
}

} // verus!
