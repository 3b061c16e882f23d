//! How an update attempt proceeds from the check to the restart.
//!
//! The attempt talks to an update service and replaces the running binary, so
//! the work itself is done by the caller. What is decided here is what the
//! caller does next: [`begin`] asks for the check, and [`step`] takes what the
//! outside world answered and gives the next state and the next thing to do.
use vstd::prelude::*;

verus! {

/// The part of an update attempt that failed.
#[derive(Clone, Copy, Debug, PartialEq, Eq, Structural)]
pub enum UpdateFailure {
    /// The update service could not be asked, or did not answer.
    Check,
    /// The download broke off, or the downloaded update could not be installed.
    Install,
}

/// Where an update attempt stands.
#[derive(Clone, Copy, Debug, PartialEq, Eq, Structural)]
pub enum UpdateState {
    /// The check was asked for and has not answered yet.
    Checking,
    /// An update was found and is being downloaded and installed.
    /// `downloaded` is the number of bytes received so far.
    Downloading { downloaded: usize },
    /// The update is installed and the restart was asked for.
    Restarting,
    /// The service had no update. The attempt ended in success.
    UpToDate,
    /// The attempt ended in failure. Nothing is retried.
    Failed(UpdateFailure),
}

/// What the outside world reports to an update attempt.
#[derive(Clone, Copy, Debug, PartialEq, Eq)]
pub enum UpdateEvent {
    /// The check answered: there is no update.
    NoUpdate,
    /// The check answered: there is an update.
    UpdateAvailable,
    /// The check failed.
    CheckFailed,
    /// A chunk of the download arrived. `chunk_length` is its size in bytes
    /// and `content_length` the size of the whole download, where known.
    Chunk { chunk_length: usize, content_length: Option<u64> },
    /// The download is complete.
    DownloadFinished,
    /// Download and installation returned with success.
    Installed,
    /// Download and installation returned with an error.
    InstallFailed,
}

/// What the caller of an update attempt is to do next.
#[derive(Clone, Copy, Debug, PartialEq, Eq)]
pub enum UpdateAction {
    /// Ask the update service whether there is an update.
    Check,
    /// Download the update that was found and install it, reporting every
    /// chunk and the end of the download as events.
    DownloadAndInstall,
    /// Tell the user that `downloaded` bytes have arrived so far, out of
    /// `content_length` where that is known.
    ReportProgress { downloaded: usize, content_length: Option<u64> },
    /// Tell the user that the download is complete.
    ReportDownloadFinished,
    /// Tell the user that the update is installed, and restart the application.
    Restart,
    /// Return success: there was nothing to install.
    Finish,
    /// Return the error of the part that failed.
    Fail(UpdateFailure),
    /// Nothing: the event has no meaning in this state.
    Nothing,
}

impl UpdateState {
    /// An attempt in such a state has ended: it asks for nothing more.
    pub open spec fn ended(self) -> bool {
        self is Restarting || self is UpToDate || self is Failed
    }
}

/// The byte count stays within `usize` when `event` arrives in `state`.
pub open spec fn fits(state: UpdateState, event: UpdateEvent) -> bool {
    match (state, event) {
        (UpdateState::Downloading { downloaded }, UpdateEvent::Chunk { chunk_length, .. }) => {
            downloaded + chunk_length <= usize::MAX
        },
        _ => true,
    }
}

/// The transition of an update attempt: the state that follows `state` once
/// `event` has arrived, and what the caller is to do then.
///
/// While the check is pending, its answer decides: no update ends the attempt
/// in success, an update starts the download with nothing received, a failure
/// ends the attempt. While the download runs, every chunk adds its size to the
/// bytes received and is reported with the new total; the end of the download
/// is reported; the return of the installation decides between the restart and
/// failure. Every other pair leaves the state as it is and asks for nothing.
pub open spec fn react(state: UpdateState, event: UpdateEvent) -> (UpdateState, UpdateAction) {
    match (state, event) {
        (UpdateState::Checking, UpdateEvent::NoUpdate) => (
            UpdateState::UpToDate,
            UpdateAction::Finish,
        ),
        (UpdateState::Checking, UpdateEvent::UpdateAvailable) => (
            UpdateState::Downloading { downloaded: 0 },
            UpdateAction::DownloadAndInstall,
        ),
        (UpdateState::Checking, UpdateEvent::CheckFailed) => (
            UpdateState::Failed(UpdateFailure::Check),
            UpdateAction::Fail(UpdateFailure::Check),
        ),
        (
            UpdateState::Downloading { downloaded },
            UpdateEvent::Chunk { chunk_length, content_length },
        ) => (
            UpdateState::Downloading { downloaded: (downloaded + chunk_length) as usize },
            UpdateAction::ReportProgress {
                downloaded: (downloaded + chunk_length) as usize,
                content_length,
            },
        ),
        (UpdateState::Downloading { .. }, UpdateEvent::DownloadFinished) => (
            state,
            UpdateAction::ReportDownloadFinished,
        ),
        (UpdateState::Downloading { .. }, UpdateEvent::Installed) => (
            UpdateState::Restarting,
            UpdateAction::Restart,
        ),
        (UpdateState::Downloading { .. }, UpdateEvent::InstallFailed) => (
            UpdateState::Failed(UpdateFailure::Install),
            UpdateAction::Fail(UpdateFailure::Install),
        ),
        _ => (state, UpdateAction::Nothing),
    }
}

/// Starts an update attempt: the state is `Checking`, and the caller is to ask
/// the update service.
pub fn begin() -> (first: (UpdateState, UpdateAction))
    ensures
        first == (UpdateState::Checking, UpdateAction::Check),
{
    (UpdateState::Checking, UpdateAction::Check)
}

/// Whether `event` may be handed to [`step`] in `state`: it may, unless it is
/// a chunk that would take the bytes received beyond `usize::MAX`.
pub fn accepts(state: UpdateState, event: UpdateEvent) -> (ok: bool)
    ensures
        ok == fits(state, event),
{
    match (state, event) {
        (UpdateState::Downloading { downloaded }, UpdateEvent::Chunk { chunk_length, .. }) => {
            chunk_length <= usize::MAX - downloaded
        },
        _ => true,
    }
}

/// Takes an update attempt one event further: returns the state that follows
/// and what the caller is to do next.
///
/// The bytes received are counted in a `usize`, so a chunk that would take
/// the count beyond `usize::MAX` must not be passed: [`accepts`] tells.
pub fn step(state: UpdateState, event: UpdateEvent) -> (next: (UpdateState, UpdateAction))
    requires
        fits(state, event),
    ensures
        next == react(state, event),
{
    match state {
        UpdateState::Checking => match event {
            UpdateEvent::NoUpdate => (UpdateState::UpToDate, UpdateAction::Finish),
            UpdateEvent::UpdateAvailable => (
                UpdateState::Downloading { downloaded: 0 },
                UpdateAction::DownloadAndInstall,
            ),
            UpdateEvent::CheckFailed => (
                UpdateState::Failed(UpdateFailure::Check),
                UpdateAction::Fail(UpdateFailure::Check),
            ),
            _ => (state, UpdateAction::Nothing),
        },
        UpdateState::Downloading { downloaded } => match event {
            UpdateEvent::Chunk { chunk_length, content_length } => {
                let total: usize = downloaded + chunk_length;
                (
                    UpdateState::Downloading { downloaded: total },
                    UpdateAction::ReportProgress { downloaded: total, content_length },
                )
            },
            UpdateEvent::DownloadFinished => (state, UpdateAction::ReportDownloadFinished),
            UpdateEvent::Installed => (UpdateState::Restarting, UpdateAction::Restart),
            UpdateEvent::InstallFailed => (
                UpdateState::Failed(UpdateFailure::Install),
                UpdateAction::Fail(UpdateFailure::Install),
            ),
            _ => (state, UpdateAction::Nothing),
        },
        _ => (state, UpdateAction::Nothing),
    }
}

} // verus!
