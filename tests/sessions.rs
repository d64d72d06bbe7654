use audio_pipeline::session::{SessionController, SessionError, ToggleAction};

#[test]
fn start_while_recording_is_refused() {
    let mut c = SessionController::new();
    assert_eq!(c.check_start(), Ok(()));
    let p = c.started("/tmp/a.wav".to_string());
    assert_eq!(p, "/tmp/a.wav");
    assert_eq!(c.check_start(), Err(SessionError::AlreadyRecording));
    assert!(c.is_recording());
    assert_eq!(c.path(), Some("/tmp/a.wav".to_string()));
}

#[test]
fn stop_while_idle_is_refused() {
    let c = SessionController::new();
    assert_eq!(c.check_stop(), Err(SessionError::NotRecording));
    assert!(!c.is_recording());
}

#[test]
fn stop_returns_path_and_goes_idle() {
    let mut c = SessionController::new();
    c.started("/x/rec.wav".to_string());
    assert_eq!(c.check_stop(), Ok(()));
    assert_eq!(c.stopped(Ok(())), Ok("/x/rec.wav".to_string()));
    assert!(!c.is_recording());
    assert_eq!(c.path(), None);
}

#[test]
fn finalize_error_is_reported_and_session_ends() {
    let mut c = SessionController::new();
    c.started("/x/rec.wav".to_string());
    let r = c.stopped(Err(SessionError::Io("disk full".to_string())));
    assert_eq!(r, Err(SessionError::Io("disk full".to_string())));
    assert!(!c.is_recording());
}

#[test]
fn toggle_follows_state() {
    let mut c = SessionController::new();
    assert_eq!(c.toggle_action(), ToggleAction::Start);
    c.started("p".to_string());
    assert_eq!(c.toggle_action(), ToggleAction::Stop);
}

#[test]
fn error_messages() {
    assert_eq!(SessionError::AlreadyRecording.message(), "Already recording");
    assert_eq!(SessionError::NotRecording.message(), "Not recording");
    assert_eq!(SessionError::SourceUnavailable("No display found".to_string()).message(), "No display found");
    assert_eq!(SessionError::UnsupportedFormat("no config".to_string()).message(), "no config");
}
