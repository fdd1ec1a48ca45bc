use spotlink::datetime::{month_name_short, try_month_name_short, DateTime};
use spotlink::generate_rand_u64;
use spotlink::mailbox::{Mailbox, MAILBOX_CAPACITY};
use spotlink::messages::{DisplayBrightness, DisplayMessage, DisplayUpdate, WifiInfo};
use spotlink::model::{Action, KeyBinding, PopUpState};

#[test]
fn month_names_match_the_calendar() {
    let names = [
        "Jan", "Feb", "Mar", "Apr", "May", "Jun", "Jul", "Aug", "Sep", "Oct", "Nov", "Dec",
    ];
    for (i, name) in names.iter().enumerate() {
        assert_eq!(month_name_short(i as u32 + 1), *name);
        assert_eq!(try_month_name_short(i as u32 + 1), Some(*name));
    }
}

#[test]
fn month_number_out_of_range_is_none() {
    assert_eq!(try_month_name_short(0), None);
    assert_eq!(try_month_name_short(13), None);
    assert_eq!(try_month_name_short(u32::MAX), None);
}

#[test]
fn clock_adds_anchor_reading_and_offset() {
    let clock = DateTime::with_offset(1_000_000, 7200);
    // local_at is exact in the monotonic reading handed to it.
    let shown = clock.local_at(60);
    // The anchor was computed from the wall clock, so only the relation to
    // a second reading is fixed: one minute later shows one minute more.
    assert_eq!(clock.local_at(120), shown + 60);
    // The saturating edge pins at the top of the range.
    assert_eq!(clock.local_at(u64::MAX), u64::MAX);
}

#[test]
fn rand_seed_widens_low_half_first() {
    assert_eq!(generate_rand_u64(0xDEAD_BEEF, 0x1234_5678), 0x1234_5678_DEAD_BEEF);
    assert_eq!(generate_rand_u64(0, 0), 0);
    assert_eq!(generate_rand_u64(u32::MAX, u32::MAX), u64::MAX);
}

#[test]
fn mailbox_is_fifo_and_bounded() {
    let mut mb: Mailbox<u32> = Mailbox::new();
    assert!(mb.is_empty());
    for i in 0..MAILBOX_CAPACITY as u32 {
        assert!(mb.try_send(i));
    }
    assert!(mb.is_full());
    // A full mailbox drops nothing and refuses quietly.
    assert!(!mb.try_send(99));
    assert_eq!(mb.len(), MAILBOX_CAPACITY);
    for i in 0..MAILBOX_CAPACITY as u32 {
        assert_eq!(mb.try_receive(), Some(i));
    }
    assert_eq!(mb.try_receive(), None);
}

#[test]
fn display_message_converts_to_update() {
    assert_eq!(DisplayUpdate::from_message(DisplayMessage::On), DisplayUpdate::On);
    assert_eq!(DisplayUpdate::from_message(DisplayMessage::Off), DisplayUpdate::Off);
    assert_eq!(
        DisplayUpdate::from_message(DisplayMessage::StatusUpdate(b"hi".to_vec())),
        DisplayUpdate::StatusUpdate(b"hi".to_vec())
    );
}

#[test]
fn brightness_wire_parameters() {
    assert_eq!(DisplayBrightness::Low.instruction(), 0x51);
    let mut buf = vec![0u8; 2];
    assert_eq!(DisplayBrightness::Low.fill_params_buf(&mut buf), 1);
    assert_eq!(buf[0], 75);
    assert_eq!(DisplayBrightness::Normal.fill_params_buf(&mut buf), 1);
    assert_eq!(buf[0], 150);
    assert_eq!(DisplayBrightness::High.fill_params_buf(&mut buf), 1);
    assert_eq!(buf[0], 255);
}

#[test]
fn wifi_info_exposes_its_credentials() {
    let info = WifiInfo::new(b"net".to_vec(), b"pw".to_vec());
    assert_eq!(info.get_ssid(), &b"net".to_vec());
    assert_eq!(info.get_password(), &b"pw".to_vec());
}

#[test]
fn host_model_types_carry_their_data() {
    let kb = KeyBinding { action: Action::ForceQuit, text: Some("quit now".to_string()) };
    assert_eq!(kb.action, Action::ForceQuit);
    assert_eq!(kb.text.as_deref(), Some("quit now"));
    let popup = PopUpState::Message("connect failed".to_string());
    assert!(matches!(popup, PopUpState::Message(_)));
}
