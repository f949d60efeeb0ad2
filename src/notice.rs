use vstd::prelude::*;

verus! {

/// What the window-management policy and the output listeners are told,
/// in the order in which they are to be told. The caller delivers each
/// notice to the registered policy; with no policy registered, notices are
/// dropped.
#[derive(Debug, Clone, Copy, PartialEq, Eq, Structural)]
pub enum Notice {
    /// The window now appears on the output.
    EnteredOutput { window: u64, output: u64 },
    /// The window no longer appears on the output.
    LeftOutput { window: u64, output: u64 },
    /// The window was mapped and awaits placement.
    WindowReady { window: u64 },
    /// The client committed new state for the window.
    ConfiguredWindow { window: u64 },
    /// The window is gone.
    DeleteWindow { window: u64 },
    /// An output was connected.
    OutputCreate { output: u64 },
    /// An output was disconnected.
    OutputDelete { output: u64 },
}

} // verus!
