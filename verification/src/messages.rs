//! The typed values exchanged between the host companion tool and the device.
//!
//! A [`Message`] travels host-to-device, a [`Response`] device-to-host, and
//! the display task consumes [`DisplayUpdate`] values. Every payload string
//! is a byte string bounded by [`MAX_PAYLOAD_LEN`] bytes; the codec rejects
//! anything longer, so encoded frames stay within a compile-time bound.
//!
//! Each carrier type has a mathematical view ([`MessageView`],
//! [`WifiInfoView`]) over byte sequences; the codec's contracts are stated
//! over those views.

use vstd::prelude::*;

verus! {

/// Upper bound, in bytes, on every payload string carried by a message.
pub const MAX_PAYLOAD_LEN: usize = 64;

/// Which price-data provider an API key belongs to.
#[derive(Debug, Clone, Copy, PartialEq, Eq, Structural)]
pub enum ApiProvider {
    Fingrid,
    Entsoe,
}

/// Mathematical view of [`WifiInfo`]: the two credential byte strings.
pub struct WifiInfoView {
    pub ssid: Seq<u8>,
    pub password: Seq<u8>,
}

impl WifiInfoView {
    /// Both credential strings of a well-formed value fit the payload bound.
    pub open spec fn wf(&self) -> bool {
        self.ssid.len() <= MAX_PAYLOAD_LEN && self.password.len() <= MAX_PAYLOAD_LEN
    }
}

/// Wifi credentials carried by [`Message::SetWifiCredentials`].
#[derive(Debug, Clone, PartialEq, Eq)]
pub struct WifiInfo {
    ssid: Vec<u8>,
    password: Vec<u8>,
}

impl View for WifiInfo {
    type V = WifiInfoView;

    closed spec fn view(&self) -> WifiInfoView {
        WifiInfoView { ssid: self.ssid@, password: self.password@ }
    }
}

impl WifiInfo {
    pub fn new(ssid: Vec<u8>, password: Vec<u8>) -> (r: Self)
        ensures
            r@ == (WifiInfoView { ssid: ssid@, password: password@ }),
    {
        Self { ssid, password }
    }

    pub fn get_ssid(&self) -> (r: &Vec<u8>)
        ensures
            r@ == self@.ssid,
    {
        &self.ssid
    }

    pub fn get_password(&self) -> (r: &Vec<u8>)
        ensures
            r@ == self@.password,
    {
        &self.password
    }
}

/// Mathematical view of [`Message`].
pub enum MessageView {
    SetWifiCredentials(WifiInfoView),
    SetApiKey(ApiProvider, Seq<u8>),
    DisplayCommand(Seq<u8>),
}

impl MessageView {
    /// Every payload string of a well-formed message fits the payload bound.
    pub open spec fn wf(&self) -> bool {
        match *self {
            MessageView::SetWifiCredentials(info) => info.wf(),
            MessageView::SetApiKey(_, key) => key.len() <= MAX_PAYLOAD_LEN,
            MessageView::DisplayCommand(text) => text.len() <= MAX_PAYLOAD_LEN,
        }
    }
}

/// A configuration command sent by the host to the device.
#[derive(Debug, Clone, PartialEq, Eq)]
pub enum Message {
    /// Provision the wifi network name and password.
    SetWifiCredentials(WifiInfo),
    /// Provision the API key for one price-data provider.
    SetApiKey(ApiProvider, Vec<u8>),
    /// Text forwarded verbatim to the device display.
    DisplayCommand(Vec<u8>),
}

impl View for Message {
    type V = MessageView;

    open spec fn view(&self) -> MessageView {
        match *self {
            Message::SetWifiCredentials(info) => MessageView::SetWifiCredentials(info@),
            Message::SetApiKey(p, key) => MessageView::SetApiKey(p, key@),
            Message::DisplayCommand(text) => MessageView::DisplayCommand(text@),
        }
    }
}

/// The device's reply to one consumed [`Message`]: exactly one per message,
/// in receipt order.
#[derive(Debug, Clone, Copy, PartialEq, Eq, Structural)]
pub enum Response {
    Okay,
    Error,
}

/// Backlight level understood by the display, with its wire parameters.
#[derive(Debug, Clone, Copy, PartialEq, Eq, Structural)]
pub enum DisplayBrightness {
    Low,
    Normal,
    High,
}

impl DisplayBrightness {
    /// The display-controller instruction code that carries a brightness.
    pub fn instruction(&self) -> (r: u8)
        ensures
            r == 0x51,
    {
        0x51
    }

    /// Writes the single parameter byte of this brightness into `buffer`
    /// and returns how many bytes were written.
    pub fn fill_params_buf(&self, buffer: &mut Vec<u8>) -> (r: usize)
        requires
            old(buffer)@.len() >= 1,
        ensures
            r == 1,
            final(buffer)@ == old(buffer)@.update(0, self.spec_param_byte()),
    {
        let b: u8 = match self {
            DisplayBrightness::Low => 75,
            DisplayBrightness::Normal => 150,
            DisplayBrightness::High => 255,
        };
        buffer[0] = b;
        1
    }

    /// The parameter byte encoding this brightness level.
    pub open spec fn spec_param_byte(&self) -> u8 {
        match *self {
            DisplayBrightness::Low => 75,
            DisplayBrightness::Normal => 150,
            DisplayBrightness::High => 255,
        }
    }
}

/// A display-directed command as it appears inside a host message.
#[derive(Debug, Clone, PartialEq, Eq)]
pub enum DisplayMessage {
    On,
    Off,
    StatusUpdate(Vec<u8>),
}

/// A command consumed by the display task.
#[derive(Debug, Clone, PartialEq, Eq)]
pub enum DisplayUpdate {
    On,
    Off,
    StatusUpdate(Vec<u8>),
    /// Fill the panel with one RGB565 color.
    Fill(u16),
    SetBrightness(DisplayBrightness),
    /// Local-time clock tick, as a unix timestamp in seconds.
    SetTime(u64),
}

impl DisplayUpdate {
    /// The display update that carries a [`DisplayMessage`] through.
    pub open spec fn spec_from_message(m: DisplayMessage) -> DisplayUpdate {
        match m {
            DisplayMessage::On => DisplayUpdate::On,
            DisplayMessage::Off => DisplayUpdate::Off,
            DisplayMessage::StatusUpdate(s) => DisplayUpdate::StatusUpdate(s),
        }
    }

    /// Converts a host-originated display message into a display update.
    pub fn from_message(m: DisplayMessage) -> (r: DisplayUpdate)
        ensures
            r == DisplayUpdate::spec_from_message(m),
    {
        match m {
            DisplayMessage::On => DisplayUpdate::On,
            DisplayMessage::Off => DisplayUpdate::Off,
            DisplayMessage::StatusUpdate(s) => DisplayUpdate::StatusUpdate(s),
        }
    }
}

} // verus!
