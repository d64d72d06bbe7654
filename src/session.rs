use vstd::prelude::*;

verus! {

/// Why a command failed.
#[derive(Debug, PartialEq, Eq)]
pub enum SessionError {
    /// Start was asked for while a session is live.
    AlreadyRecording,
    /// Stop was asked for while no session is live.
    NotRecording,
    /// No capture device or display could be found.
    SourceUnavailable(String),
    /// No acceptable sample format or rate could be agreed with a device.
    UnsupportedFormat(String),
    /// Creating or finalising the output container failed.
    Io(String),
}

impl SessionError {
    /// Text handed back to the host for this error.
    pub fn message(&self) -> (r: String)
        ensures
            *self == SessionError::AlreadyRecording ==> r@ == "Already recording"@,
            *self == SessionError::NotRecording ==> r@ == "Not recording"@,
            forall|d: String| *self == SessionError::SourceUnavailable(d) ==> r@ == d@,
            forall|d: String| *self == SessionError::UnsupportedFormat(d) ==> r@ == d@,
            forall|d: String| *self == SessionError::Io(d) ==> r@ == d@,
    {
        match self {
            SessionError::AlreadyRecording => "Already recording".to_owned(),
            SessionError::NotRecording => "Not recording".to_owned(),
            SessionError::SourceUnavailable(d) => d.clone(),
            SessionError::UnsupportedFormat(d) => d.clone(),
            SessionError::Io(d) => d.clone(),
        }
    }
}

/// What a toggle turns into, decided under the controller's lock.
#[derive(Clone, Copy, Debug, PartialEq, Eq)]
pub enum ToggleAction {
    Start,
    Stop,
}

/// The Idle / Recording state machine; while recording it holds the output
/// path of the live session.
pub struct SessionController {
    path: Option<String>,
}

impl SessionController {
    /// The live session's output path, or `None` when idle.
    pub closed spec fn live_path(&self) -> Option<Seq<char>> {
        match self.path {
            Some(p) => Some(p@),
            None => None,
        }
    }

    pub open spec fn recording(&self) -> bool {
        self.live_path().is_some()
    }

    pub fn new() -> (r: SessionController)
        ensures
            !r.recording(),
    {
        SessionController { path: None }
    }

    pub fn is_recording(&self) -> (r: bool)
        ensures
            r == self.recording(),
    {
        self.path.is_some()
    }

    /// Output path of the live session.
    pub fn path(&self) -> (r: Option<String>)
        ensures
            r.is_some() == self.recording(),
            r.is_some() ==> self.live_path() == Some(r.unwrap()@),
    {
        match &self.path {
            Some(p) => Some(p.clone()),
            None => None,
        }
    }

    /// Checks that a session may start; the state is never changed here.
    pub fn check_start(&self) -> (r: Result<(), SessionError>)
        ensures
            r.is_err() == self.recording(),
            r.is_err() ==> r == Err::<(), SessionError>(SessionError::AlreadyRecording),
    {
        if self.path.is_some() {
            Err(SessionError::AlreadyRecording)
        } else {
            Ok(())
        }
    }

    /// Records that a session writing to `path` is now live, and returns the path.
    pub fn started(&mut self, path: String) -> (r: String)
        requires
            !old(self).recording(),
        ensures
            final(self).live_path() == Some(path@),
            r@ == path@,
    {
        let r = path.clone();
        self.path = Some(path);
        r
    }

    /// Checks that a session may stop; the state is never changed here.
    pub fn check_stop(&self) -> (r: Result<(), SessionError>)
        ensures
            r.is_err() == !self.recording(),
            r.is_err() ==> r == Err::<(), SessionError>(SessionError::NotRecording),
    {
        if self.path.is_none() {
            Err(SessionError::NotRecording)
        } else {
            Ok(())
        }
    }

    /// Records that the live session has been torn down, whatever finalising
    /// its container gave: the controller is idle afterwards, and the result
    /// is the session's path, or the finalising error.
    pub fn stopped(&mut self, finalized: Result<(), SessionError>) -> (r: Result<String, SessionError>)
        requires
            old(self).recording(),
        ensures
            !final(self).recording(),
            finalized.is_ok() ==> r.is_ok() && Some(r.unwrap()@) == old(self).live_path(),
            finalized.is_err() ==> r == Err::<String, SessionError>(finalized.unwrap_err()),
    {
        let p = self.path.take();
        match finalized {
            Err(e) => Err(e),
            Ok(()) => match p {
                Some(path) => Ok(path),
                None => Err(SessionError::NotRecording),
            },
        }
    }

    /// Decides in one step what a toggle does: stop a live session, or start one.
    pub fn toggle_action(&self) -> (r: ToggleAction)
        ensures
            r == (if self.recording() {
                ToggleAction::Stop
            } else {
                ToggleAction::Start
            }),
    {
        if self.path.is_some() {
            ToggleAction::Stop
        } else {
            ToggleAction::Start
        }
    }
}

} // verus!
