//! Data model of the host companion tool's user interface.
//!
//! Only the plain state and command types live here; terminal rendering,
//! key-event decoding and serial-port enumeration are I/O around them.

use vstd::prelude::*;

verus! {

/// Everything the host tool's update loop can be asked to do.
#[derive(Debug, Clone, Copy, PartialEq, Eq, Structural)]
pub enum Action {
    /// Lists available serial ports.
    FetchSerialPorts,
    /// Quits without saving anything or checking with the user.
    ForceQuit,
    SelectionUp,
    SelectionDown,
    ClearSelection,
    SelectLast,
    SelectFirst,
    /// Connect to the selected serial port and continue.
    StateChangeFromSerialPortToMain,
    MustSelectOne,
    ClosePopUp,
    /// Show the keybindings configured in the settings file.
    ShowKeyBindings,
    SerialPortConnectionFail,
}

/// One configured key binding: the action it triggers and an optional help
/// text.
#[derive(Debug, Clone, PartialEq, Eq)]
pub struct KeyBinding {
    pub action: Action,
    pub text: Option<String>,
}

/// State of the configuration screen.
#[derive(Debug, Clone, Copy, PartialEq, Eq, Structural, Default)]
pub struct ConfigureScreenState {
}

/// State of the information screen.
#[derive(Debug, Clone, Copy, PartialEq, Eq, Structural, Default)]
pub struct GetInformationScreenState {
}

/// State of the quit-confirmation screen.
#[derive(Debug, Clone, Copy, PartialEq, Eq, Structural, Default)]
pub struct QuitScreenState {
}

/// A pop-up shown over the current screen.
#[derive(Debug, Clone, PartialEq, Eq)]
pub enum PopUpState {
    Message(String),
    ShowKeyBindings,
}

} // verus!
