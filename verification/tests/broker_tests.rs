use spotlink::broker::{broker_step, fetch_spot_price, handle_message};
use spotlink::mailbox::Mailbox;
use spotlink::messages::{ApiProvider, DisplayUpdate, Message, Response, WifiInfo};
use spotlink::storage::{NonVolatileKey, NonVolatileStorage, ERASED_BYTE, FLASH_SIZE};

#[test]
fn broker_sequencing_two_keys_in_order() {
    // Two API-key messages back to back: two Okay responses, in order, and a
    // subsequent fetch sees the second value.
    let mut inbox: Mailbox<Message> = Mailbox::new();
    let mut outbox: Mailbox<Response> = Mailbox::new();
    let mut display: Mailbox<DisplayUpdate> = Mailbox::new();
    let mut store = NonVolatileStorage::new();

    inbox.send(Message::SetApiKey(ApiProvider::Fingrid, b"A".to_vec()));
    inbox.send(Message::SetApiKey(ApiProvider::Fingrid, b"B".to_vec()));

    assert!(broker_step(&mut inbox, &mut outbox, &mut display, &mut store));
    assert!(broker_step(&mut inbox, &mut outbox, &mut display, &mut store));

    assert_eq!(outbox.receive(), Response::Okay);
    assert_eq!(outbox.receive(), Response::Okay);
    assert!(outbox.is_empty());
    assert_eq!(
        store.fetch(NonVolatileKey::FingridApiKey).unwrap().unwrap().0,
        b"B".to_vec()
    );
}

#[test]
fn wifi_credentials_are_persisted_before_okay() {
    let mut store = NonVolatileStorage::new();
    let msg = Message::SetWifiCredentials(WifiInfo::new(b"net".to_vec(), b"pw".to_vec()));
    let (resp, disp) = handle_message(&mut store, msg);
    assert_eq!(resp, Response::Okay);
    assert_eq!(disp, None);
    assert_eq!(store.fetch(NonVolatileKey::WifiSsid).unwrap().unwrap().0, b"net".to_vec());
    assert_eq!(store.fetch(NonVolatileKey::WifiPassword).unwrap().unwrap().0, b"pw".to_vec());
}

#[test]
fn display_command_is_forwarded_verbatim() {
    let mut inbox: Mailbox<Message> = Mailbox::new();
    let mut outbox: Mailbox<Response> = Mailbox::new();
    let mut display: Mailbox<DisplayUpdate> = Mailbox::new();
    let mut store = NonVolatileStorage::new();

    inbox.send(Message::DisplayCommand(b"price: 4.2".to_vec()));
    assert!(broker_step(&mut inbox, &mut outbox, &mut display, &mut store));
    assert_eq!(outbox.receive(), Response::Okay);
    assert_eq!(
        display.receive(),
        DisplayUpdate::StatusUpdate(b"price: 4.2".to_vec())
    );
    // Nothing was persisted.
    assert_eq!(store.fetch(NonVolatileKey::WifiSsid), Ok(None));
}

#[test]
fn storage_failure_becomes_error_response_and_broker_continues() {
    // A corrupt range fails the durable write; the host sees Error, and the
    // next message is still served.
    let mut image = vec![ERASED_BYTE; FLASH_SIZE];
    image[0] = 0x99;
    let mut store = NonVolatileStorage::from_image(image);

    let (resp, disp) = handle_message(
        &mut store,
        Message::SetApiKey(ApiProvider::Entsoe, b"k".to_vec()),
    );
    assert_eq!(resp, Response::Error);
    assert_eq!(disp, None);

    // A display command needs no storage and still succeeds.
    let (resp2, disp2) = handle_message(&mut store, Message::DisplayCommand(b"up".to_vec()));
    assert_eq!(resp2, Response::Okay);
    assert_eq!(disp2, Some(DisplayUpdate::StatusUpdate(b"up".to_vec())));
}

#[test]
fn wifi_write_that_does_not_fit_reports_error() {
    // Fill the range until only 16 bytes remain: the ssid record (12 bytes)
    // still fits, the password record (66 bytes) does not, and the host is
    // told its command did not take effect.
    let mut store = NonVolatileStorage::new();
    let filler = vec![0x55u8; 64];
    for _ in 0..(FLASH_SIZE - 16) / 66 {
        store.store(NonVolatileKey::EntsoeApiKey, &filler).unwrap();
    }
    let msg = Message::SetWifiCredentials(WifiInfo::new(
        vec![0x41u8; 10],
        vec![0x42u8; 64],
    ));
    let (resp, disp) = handle_message(&mut store, msg);
    assert_eq!(resp, Response::Error);
    assert_eq!(disp, None);
    assert_eq!(
        store.fetch(NonVolatileKey::WifiSsid).unwrap().unwrap().0,
        vec![0x41u8; 10]
    );
    assert_eq!(store.fetch(NonVolatileKey::WifiPassword), Ok(None));
}

#[test]
fn empty_inbox_is_a_quiet_step() {
    let mut inbox: Mailbox<Message> = Mailbox::new();
    let mut outbox: Mailbox<Response> = Mailbox::new();
    let mut display: Mailbox<DisplayUpdate> = Mailbox::new();
    let mut store = NonVolatileStorage::new();
    assert!(!broker_step(&mut inbox, &mut outbox, &mut display, &mut store));
    assert!(outbox.is_empty());
    assert!(display.is_empty());
}

#[test]
fn spot_price_task_reads_the_provisioned_key() {
    let mut store = NonVolatileStorage::new();
    assert_eq!(fetch_spot_price(&store), Ok(None));
    store.store(NonVolatileKey::EntsoeApiKey, &b"token".to_vec()).unwrap();
    assert_eq!(fetch_spot_price(&store).unwrap().unwrap().0, b"token".to_vec());
}
