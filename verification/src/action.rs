//! The messages that flow between the workers and the user interface.
use vstd::prelude::*;

verus! {

/// Everything the workers and the terminal loop tell each other.
#[derive(Debug, Clone, PartialEq, Eq)]
pub enum Action {
    Tick,
    Render,
    Resize(u16, u16),
    Suspend,
    Resume,
    Quit,
    ClearScreen,
    Error(String),
    Help,
    /// Whether posting on X is possible (credentials present)
    XStatus(bool),
    /// Result of an attempted post on X
    XTx { ok: bool, text: String },
    /// Scanner started firing (first keystroke of a scan burst)
    SandStart,
    /// Complete payload decoded (Enter received)
    Scan(String),
    /// Radio connection state changed
    MeshStatus(bool),
    /// Text message received from the mesh
    MeshRx { from: String, text: String },
    /// Result of an attempted mesh send
    MeshTx { ok: bool, text: String },
}

} // verus!
