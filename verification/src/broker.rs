//! The single dispatch point for host-originated commands.
//!
//! The broker is a pure dispatch loop with no state of its own: it receives
//! one decoded [`Message`] from its inbox, handles it to completion —
//! including any durable write — emits exactly one [`Response`] into the
//! serial writer's outbox, forwards display text to the display inbox, and
//! repeats. Message N+1 is not touched before the durable write for message
//! N has completed, so a host that stores and then reads back always sees
//! its own write. A storage failure is reported as [`Response::Error`] and
//! never stops the loop.

use vstd::prelude::*;
use crate::mailbox::{Mailbox, MAILBOX_CAPACITY};
use crate::messages::{ApiProvider, DisplayUpdate, Message, MessageView, Response};
use crate::storage::{NonVolatileItem, NonVolatileKey, NonVolatileStorage, StorageError,
    FLASH_SIZE};

verus! {

/// The persisted slot an API key for `p` lives in.
pub open spec fn spec_provider_slot(p: ApiProvider) -> NonVolatileKey {
    match p {
        ApiProvider::Fingrid => NonVolatileKey::FingridApiKey,
        ApiProvider::Entsoe => NonVolatileKey::EntsoeApiKey,
    }
}

/// Everything handling one message guarantees, relating the store before
/// (`s0`) and after (`s1`) to the response and the forwarded display text.
///
/// The response is `Okay` exactly when every durable write the message asks
/// for fits a sound store; on `Error` the range is either untouched or — for
/// a credentials message whose second write did not fit — holds exactly the
/// first of its two records.
pub open spec fn spec_handle_outcome(
    s0: NonVolatileStorage,
    s1: NonVolatileStorage,
    v: MessageView,
    resp: Response,
    disp: Option<DisplayUpdate>,
) -> bool {
    match v {
        MessageView::SetWifiCredentials(info) => {
            &&& disp is None
            &&& (resp == Response::Okay <==> s0.wf() && s0.log_end() + 4 + info.ssid.len()
                + info.password.len() <= FLASH_SIZE)
            &&& (resp == Response::Okay ==> s1.wf() && s1@ == s0@.insert(
                NonVolatileKey::WifiSsid,
                info.ssid,
            ).insert(NonVolatileKey::WifiPassword, info.password))
            &&& (resp == Response::Error ==> (if s0.wf() && s0.log_end() + 2 + info.ssid.len()
                <= FLASH_SIZE {
                // Only the second of the two records fit no more: exactly
                // the network name was persisted.
                s1.wf() && s1@ == s0@.insert(NonVolatileKey::WifiSsid, info.ssid)
            } else {
                s1.flash_bytes() == s0.flash_bytes()
            }))
        },
        MessageView::SetApiKey(p, key) => {
            &&& disp is None
            &&& (resp == Response::Okay <==> s0.wf() && s0.log_end() + 2 + key.len()
                <= FLASH_SIZE)
            &&& (resp == Response::Okay ==> s1.wf() && s1@ == s0@.insert(
                spec_provider_slot(p),
                key,
            ))
            &&& (resp == Response::Error ==> s1.flash_bytes() == s0.flash_bytes())
        },
        MessageView::DisplayCommand(text) => {
            &&& resp == Response::Okay
            &&& (disp matches Some(DisplayUpdate::StatusUpdate(t)) && t@ == text)
            &&& s1.flash_bytes() == s0.flash_bytes()
        },
    }
}

/// Handles one decoded message to completion: performs its durable writes
/// against the store and returns the response owed to the host together
/// with any display text to forward.
pub fn handle_message(store: &mut NonVolatileStorage, msg: Message) -> (r: (
    Response,
    Option<DisplayUpdate>,
))
    requires
        old(store).flash_bytes().len() == FLASH_SIZE,
        msg@.wf(),
    ensures
        final(store).flash_bytes().len() == FLASH_SIZE,
        spec_handle_outcome(*old(store), *final(store), msg@, r.0, r.1),
{
    match msg {
        Message::SetWifiCredentials(info) => {
            match store.store(NonVolatileKey::WifiSsid, info.get_ssid()) {
                Ok(()) => {
                    match store.store(NonVolatileKey::WifiPassword, info.get_password()) {
                        Ok(()) => (Response::Okay, None),
                        Err(_) => (Response::Error, None),
                    }
                },
                Err(_) => (Response::Error, None),
            }
        },
        Message::SetApiKey(provider, key) => {
            let slot = match provider {
                ApiProvider::Fingrid => NonVolatileKey::FingridApiKey,
                ApiProvider::Entsoe => NonVolatileKey::EntsoeApiKey,
            };
            match store.store(slot, &key) {
                Ok(()) => (Response::Okay, None),
                Err(_) => (Response::Error, None),
            }
        },
        Message::DisplayCommand(text) => {
            (Response::Okay, Some(DisplayUpdate::StatusUpdate(text)))
        },
    }
}

/// One turn of the broker loop: take the front message from the inbox,
/// handle it, push exactly one response, and forward any display text.
/// Returns whether a message was processed. The caller suspends until the
/// outboxes have room, so a step only runs when they do.
pub fn broker_step(
    inbox: &mut Mailbox<Message>,
    outbox: &mut Mailbox<Response>,
    display: &mut Mailbox<DisplayUpdate>,
    store: &mut NonVolatileStorage,
) -> (processed: bool)
    requires
        old(inbox).wf(),
        old(outbox).wf(),
        old(display).wf(),
        old(store).flash_bytes().len() == FLASH_SIZE,
        old(inbox)@.len() > 0 ==> old(inbox)@[0]@.wf(),
        old(outbox)@.len() < MAILBOX_CAPACITY,
        old(display)@.len() < MAILBOX_CAPACITY,
    ensures
        final(inbox).wf(),
        final(outbox).wf(),
        final(display).wf(),
        final(store).flash_bytes().len() == FLASH_SIZE,
        processed == (old(inbox)@.len() > 0),
        !processed ==> {
            &&& final(inbox)@ == old(inbox)@
            &&& final(outbox)@ == old(outbox)@
            &&& final(display)@ == old(display)@
            &&& final(store).flash_bytes() == old(store).flash_bytes()
        },
        processed ==> {
            &&& final(inbox)@ == old(inbox)@.skip(1)
            &&& final(outbox)@.len() == old(outbox)@.len() + 1
            &&& final(outbox)@ == old(outbox)@.push(final(outbox)@.last())
            &&& ({
                let disp_sent = if final(display)@.len() == old(display)@.len() + 1 {
                    Some(final(display)@.last())
                } else {
                    None
                };
                &&& (final(display)@ == old(display)@ || final(display)@ == old(
                    display,
                )@.push(final(display)@.last()))
                &&& spec_handle_outcome(
                    *old(store),
                    *final(store),
                    old(inbox)@[0]@,
                    final(outbox)@.last(),
                    disp_sent,
                )
            })
        },
{
    let msg = match inbox.try_receive() {
        Some(m) => m,
        None => {
            return false;
        },
    };
    let (resp, disp) = handle_message(store, msg);
    match disp {
        Some(update) => display.send(update),
        None => {},
    }
    outbox.send(resp);
    true
}

/// Reads the provider API key that the price-fetch task starts with: the
/// stored key, `None` when none has been provisioned yet, or the corruption
/// the scan found.
pub fn fetch_spot_price(store: &NonVolatileStorage) -> (r: Result<
    Option<NonVolatileItem>,
    StorageError,
>)
    requires
        store.flash_bytes().len() == FLASH_SIZE,
    ensures
        match r {
            Ok(found) => match found {
                Some(item) => store@.contains_key(NonVolatileKey::EntsoeApiKey) && item.0@
                    == store@[NonVolatileKey::EntsoeApiKey],
                None => !store@.contains_key(NonVolatileKey::EntsoeApiKey),
            },
            Err(e) => e == StorageError::Corrupted,
        },
{
    store.fetch(NonVolatileKey::EntsoeApiKey)
}

} // verus!
