use desktop_shell::update::{
    accepts, begin, step, UpdateAction, UpdateEvent, UpdateFailure, UpdateState,
};

fn chunk(chunk_length: usize, content_length: Option<u64>) -> UpdateEvent {
    UpdateEvent::Chunk { chunk_length, content_length }
}

fn every_event() -> Vec<UpdateEvent> {
    vec![
        UpdateEvent::NoUpdate,
        UpdateEvent::UpdateAvailable,
        UpdateEvent::CheckFailed,
        chunk(10, Some(100)),
        UpdateEvent::DownloadFinished,
        UpdateEvent::Installed,
        UpdateEvent::InstallFailed,
    ]
}

#[test]
fn begin_asks_for_the_check() {
    assert_eq!(begin(), (UpdateState::Checking, UpdateAction::Check));
}

#[test]
fn no_update_finishes_the_attempt() {
    assert_eq!(
        step(UpdateState::Checking, UpdateEvent::NoUpdate),
        (UpdateState::UpToDate, UpdateAction::Finish)
    );
}

#[test]
fn an_update_starts_the_download_at_zero() {
    assert_eq!(
        step(UpdateState::Checking, UpdateEvent::UpdateAvailable),
        (UpdateState::Downloading { downloaded: 0 }, UpdateAction::DownloadAndInstall)
    );
}

#[test]
fn a_failed_check_fails_the_attempt() {
    assert_eq!(
        step(UpdateState::Checking, UpdateEvent::CheckFailed),
        (UpdateState::Failed(UpdateFailure::Check), UpdateAction::Fail(UpdateFailure::Check))
    );
}

#[test]
fn a_chunk_adds_its_size_to_the_count() {
    assert_eq!(
        step(UpdateState::Downloading { downloaded: 0 }, chunk(1024, Some(4096))),
        (
            UpdateState::Downloading { downloaded: 1024 },
            UpdateAction::ReportProgress { downloaded: 1024, content_length: Some(4096) }
        )
    );
    assert_eq!(
        step(UpdateState::Downloading { downloaded: 1024 }, chunk(512, None)),
        (
            UpdateState::Downloading { downloaded: 1536 },
            UpdateAction::ReportProgress { downloaded: 1536, content_length: None }
        )
    );
}

#[test]
fn an_empty_chunk_is_reported_with_the_same_count() {
    assert_eq!(
        step(UpdateState::Downloading { downloaded: 7 }, chunk(0, Some(7))),
        (
            UpdateState::Downloading { downloaded: 7 },
            UpdateAction::ReportProgress { downloaded: 7, content_length: Some(7) }
        )
    );
}

#[test]
fn the_count_may_reach_the_largest_number() {
    let state = UpdateState::Downloading { downloaded: usize::MAX - 5 };
    assert!(accepts(state, chunk(5, None)));
    assert_eq!(
        step(state, chunk(5, None)),
        (
            UpdateState::Downloading { downloaded: usize::MAX },
            UpdateAction::ReportProgress { downloaded: usize::MAX, content_length: None }
        )
    );
}

#[test]
fn a_chunk_beyond_the_largest_number_is_not_accepted() {
    assert!(!accepts(UpdateState::Downloading { downloaded: usize::MAX - 5 }, chunk(6, None)));
    assert!(!accepts(UpdateState::Downloading { downloaded: usize::MAX }, chunk(1, Some(1))));
    assert!(!accepts(UpdateState::Downloading { downloaded: 1 }, chunk(usize::MAX, None)));
}

#[test]
fn everything_but_an_overflowing_chunk_is_accepted() {
    let full = UpdateState::Downloading { downloaded: usize::MAX };
    assert!(accepts(full, chunk(0, None)));
    assert!(accepts(full, UpdateEvent::DownloadFinished));
    assert!(accepts(full, UpdateEvent::Installed));
    assert!(accepts(full, UpdateEvent::InstallFailed));
    let others = [
        UpdateState::Checking,
        UpdateState::Restarting,
        UpdateState::UpToDate,
        UpdateState::Failed(UpdateFailure::Check),
        UpdateState::Failed(UpdateFailure::Install),
    ];
    for state in others {
        assert!(accepts(state, chunk(usize::MAX, None)));
        for event in every_event() {
            assert!(accepts(state, event));
        }
    }
}

#[test]
fn the_end_of_the_download_is_reported_and_changes_nothing() {
    assert_eq!(
        step(UpdateState::Downloading { downloaded: 2048 }, UpdateEvent::DownloadFinished),
        (UpdateState::Downloading { downloaded: 2048 }, UpdateAction::ReportDownloadFinished)
    );
}

#[test]
fn an_installed_update_asks_for_the_restart() {
    assert_eq!(
        step(UpdateState::Downloading { downloaded: 2048 }, UpdateEvent::Installed),
        (UpdateState::Restarting, UpdateAction::Restart)
    );
}

#[test]
fn a_failed_installation_fails_the_attempt() {
    assert_eq!(
        step(UpdateState::Downloading { downloaded: 300 }, UpdateEvent::InstallFailed),
        (UpdateState::Failed(UpdateFailure::Install), UpdateAction::Fail(UpdateFailure::Install))
    );
    assert_eq!(
        step(UpdateState::Downloading { downloaded: 0 }, UpdateEvent::InstallFailed),
        (UpdateState::Failed(UpdateFailure::Install), UpdateAction::Fail(UpdateFailure::Install))
    );
}

#[test]
fn a_pending_check_ignores_the_events_of_a_download() {
    let ignored = [
        chunk(10, Some(100)),
        UpdateEvent::DownloadFinished,
        UpdateEvent::Installed,
        UpdateEvent::InstallFailed,
    ];
    for event in ignored {
        assert_eq!(
            step(UpdateState::Checking, event),
            (UpdateState::Checking, UpdateAction::Nothing)
        );
    }
}

#[test]
fn a_download_ignores_the_answers_of_a_check() {
    let state = UpdateState::Downloading { downloaded: 42 };
    let ignored = [UpdateEvent::NoUpdate, UpdateEvent::UpdateAvailable, UpdateEvent::CheckFailed];
    for event in ignored {
        assert_eq!(step(state, event), (state, UpdateAction::Nothing));
    }
}

#[test]
fn an_ended_attempt_ignores_every_event() {
    let ended = [
        UpdateState::Restarting,
        UpdateState::UpToDate,
        UpdateState::Failed(UpdateFailure::Check),
        UpdateState::Failed(UpdateFailure::Install),
    ];
    for state in ended {
        for event in every_event() {
            assert_eq!(step(state, event), (state, UpdateAction::Nothing));
        }
    }
}

#[test]
fn no_update_never_leads_to_a_download_or_a_restart() {
    let (state, action) = begin();
    assert_eq!(action, UpdateAction::Check);
    let (mut state, action) = step(state, UpdateEvent::NoUpdate);
    assert_eq!(action, UpdateAction::Finish);
    for event in every_event() {
        let (next, action) = step(state, event);
        assert_ne!(action, UpdateAction::DownloadAndInstall);
        assert_ne!(action, UpdateAction::Restart);
        assert_eq!(action, UpdateAction::Nothing);
        state = next;
    }
    assert_eq!(state, UpdateState::UpToDate);
}

#[test]
fn a_whole_update_step_by_step() {
    let (state, action) = begin();
    assert_eq!(action, UpdateAction::Check);
    let (state, action) = step(state, UpdateEvent::UpdateAvailable);
    assert_eq!(action, UpdateAction::DownloadAndInstall);
    let (state, action) = step(state, chunk(100, Some(250)));
    assert_eq!(action, UpdateAction::ReportProgress { downloaded: 100, content_length: Some(250) });
    let (state, action) = step(state, chunk(100, Some(250)));
    assert_eq!(action, UpdateAction::ReportProgress { downloaded: 200, content_length: Some(250) });
    let (state, action) = step(state, chunk(50, Some(250)));
    assert_eq!(action, UpdateAction::ReportProgress { downloaded: 250, content_length: Some(250) });
    let (state, action) = step(state, UpdateEvent::DownloadFinished);
    assert_eq!(action, UpdateAction::ReportDownloadFinished);
    let (state, action) = step(state, UpdateEvent::Installed);
    assert_eq!(action, UpdateAction::Restart);
    assert_eq!(state, UpdateState::Restarting);
}
