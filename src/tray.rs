use vstd::prelude::*;

verus! {

/// What a left click on the tray icon does.
#[derive(Clone, Copy, Debug, PartialEq, Eq, Structural)]
pub enum TrayClick {
    /// A click that follows another too closely is ignored.
    Ignore,
    /// A recording runs: stop it.
    StopRecording,
    /// The settings were never saved: show the window instead of recording.
    ShowWindow,
    /// Start recording the first monitor.
    StartRecording,
}

pub open spec fn spec_tray_left_click(debouncing: bool, recording: bool, configured: bool) -> TrayClick {
    if debouncing {
        TrayClick::Ignore
    } else if recording {
        TrayClick::StopRecording
    } else if !configured {
        TrayClick::ShowWindow
    } else {
        TrayClick::StartRecording
    }
}

/// Decides what a left click on the tray icon does, given whether an earlier click is
/// still being debounced, whether a recording runs, and whether the app is configured.
pub fn tray_left_click(debouncing: bool, recording: bool, configured: bool) -> (r: TrayClick)
    ensures
        r == spec_tray_left_click(debouncing, recording, configured),
{
    if debouncing {
        TrayClick::Ignore
    } else if recording {
        TrayClick::StopRecording
    } else if !configured {
        TrayClick::ShowWindow
    } else {
        TrayClick::StartRecording
    }
}

} // verus!
