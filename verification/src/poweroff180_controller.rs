//! The power-off 180 guidance controller plugin: which aircraft may fly a
//! test card, its command dispatch, and its lifecycle.
use vstd::prelude::*;
use crate::text::{
    backslashes_to_slashes, chars_backslashes_to_slashes, chars_end_with, chars_of, ends_with,
    string_from_chars, to_lowercase, unicode_lowercase,
};

verus! {

/// Whether a lower-cased aircraft path with forward slashes is the X-Aviation
/// TorqueSim SR20.
pub open spec fn spec_torquesim_lowered(lowered: Seq<char>) -> bool {
    ends_with(lowered, "/aircraft/x-aviation/torquesim sr20/sr20.acf"@)
}

/// Whether a test card may run in the aircraft at `path`: its path, with
/// forward slashes and in lower case, is that of the TorqueSim SR20.
pub open spec fn spec_aircraft_allowed(path: Seq<char>) -> bool {
    spec_torquesim_lowered(unicode_lowercase(backslashes_to_slashes(path)))
}

/// Whether a lower-cased aircraft path with forward slashes is the TorqueSim
/// SR20.
pub fn torquesim_lowered(lowered: &str) -> (r: bool)
    ensures
        r == spec_torquesim_lowered(lowered@),
{
    let path = chars_of(lowered);
    let expected = chars_of("/aircraft/x-aviation/torquesim sr20/sr20.acf");
    chars_end_with(&path, &expected)
}

/// Whether a test card may run in the aircraft at `path`.
pub fn aircraft_allowed(path: &str) -> (r: bool)
    ensures
        r == spec_aircraft_allowed(path@),
{
    let chars = chars_of(path);
    let slashed = chars_backslashes_to_slashes(&chars);
    let text = string_from_chars(&slashed);
    let lowered = to_lowercase(text.as_str());
    torquesim_lowered(lowered.as_str())
}

/// What the controller's commands (`xpt/configure`, `xpt/start`,
/// `xpt/abort`) ask for.
#[derive(Clone, Copy, Debug, PartialEq, Eq, Structural)]
pub enum CardCommand {
    Configure,
    Start,
    Cancel,
}

/// The command registered under `identifier`: 0 configures, 1 starts, any
/// other cancels.
pub fn command_for(identifier: usize) -> (r: CardCommand)
    ensures
        r == if identifier == 0 {
            CardCommand::Configure
        } else if identifier == 1 {
            CardCommand::Start
        } else {
            CardCommand::Cancel
        },
{
    if identifier == 0 {
        CardCommand::Configure
    } else if identifier == 1 {
        CardCommand::Start
    } else {
        CardCommand::Cancel
    }
}

/// What the plugin keeps of a test session beside the guidance controller.
#[derive(Clone, Copy, Debug, PartialEq, Eq, Structural)]
pub struct CardSession {
    /// A validated card has been loaded.
    pub configured: bool,
    /// A trace file is open.
    pub trace_open: bool,
}

/// What cancelling a session asks the caller to do.
#[derive(Clone, Copy, Debug, PartialEq, Eq, Structural)]
pub struct CancelPlan {
    /// Abort the running test, then release the controls and pause.
    pub abort_and_release: bool,
    /// Flush and close the trace file.
    pub close_trace: bool,
}

impl CardSession {
    /// Cancels the session, given whether the controller is running a test:
    /// a running test is aborted and the controls released; the trace, if
    /// open, is closed. The caller then publishes the snapshot.
    pub fn cancel(&mut self, running: bool) -> (r: CancelPlan)
        ensures
            r == (CancelPlan { abort_and_release: running, close_trace: old(self).trace_open }),
            *final(self) == (CardSession { trace_open: false, ..*old(self) }),
    {
        let plan = CancelPlan { abort_and_release: running, close_trace: self.trace_open };
        self.trace_open = false;
        plan
    }
}

/// Installs the controller created at start-up; whether the plugin started.
pub fn start(slot: &mut Option<CardSession>, created: Result<CardSession, String>) -> (r: bool)
    ensures
        r == created is Ok,
        created matches Ok(s) ==> *final(slot) == Some(s),
        created is Err ==> *final(slot) == *old(slot),
{
    match created {
        Ok(state) => {
            *slot = Some(state);
            true
        },
        Err(_) => false,
    }
}

/// X-Plane enables the plugin, which always accepts.
pub fn enable() -> (r: bool)
    ensures
        r,
{
    true
}

/// X-Plane disables the plugin: the session, if started, is cancelled, given
/// whether the controller is running a test.
pub fn disable(slot: &mut Option<CardSession>, running: bool) -> (r: Option<CancelPlan>)
    ensures
        match *old(slot) {
            Some(s) => *final(slot) == Some(CardSession { trace_open: false, ..s }) && r == Some(
                CancelPlan { abort_and_release: running, close_trace: s.trace_open },
            ),
            None => *final(slot) is None && r is None,
        },
{
    match slot {
        Some(state) => Some(state.cancel(running)),
        None => None,
    }
}

/// X-Plane stops the plugin: the session is cancelled as on disable, then
/// dropped.
pub fn stop(slot: &mut Option<CardSession>, running: bool) -> (r: Option<CancelPlan>)
    ensures
        *final(slot) is None,
        match *old(slot) {
            Some(s) => r == Some(CancelPlan { abort_and_release: running, close_trace: s.trace_open }),
            None => r is None,
        },
{
    let plan = disable(slot, running);
    *slot = None;
    plan
}

} // verus!
