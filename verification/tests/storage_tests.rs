use spotlink::storage::{
    NonVolatileItem, NonVolatileKey, NonVolatileStorage, StorageError, ERASED_BYTE, FLASH_SIZE,
};

const ALL_KEYS: [NonVolatileKey; 4] = [
    NonVolatileKey::WifiSsid,
    NonVolatileKey::WifiPassword,
    NonVolatileKey::FingridApiKey,
    NonVolatileKey::EntsoeApiKey,
];

#[test]
fn fresh_store_holds_nothing() {
    let store = NonVolatileStorage::new();
    for k in ALL_KEYS {
        assert_eq!(store.fetch(k), Ok(None));
    }
}

#[test]
fn store_then_fetch_returns_the_value() {
    // Every key, with values from empty to the maximum length.
    for k in ALL_KEYS {
        for len in [0usize, 1, 7, 63, 64] {
            let mut store = NonVolatileStorage::new();
            let value: Vec<u8> = (0..len).map(|i| (i * 3 + 1) as u8).collect();
            store.store(k, &value).expect("store on a fresh range succeeds");
            let got = store.fetch(k).unwrap().expect("stored key must be found");
            assert_eq!(got.0, value);
        }
    }
}

#[test]
fn last_write_wins() {
    let mut store = NonVolatileStorage::new();
    let k = NonVolatileKey::EntsoeApiKey;
    store.store(k, &b"v1".to_vec()).unwrap();
    store.store(k, &b"v2".to_vec()).unwrap();
    assert_eq!(store.fetch(k).unwrap().unwrap().0, b"v2".to_vec());
}

#[test]
fn stores_do_not_disturb_other_keys() {
    let mut store = NonVolatileStorage::new();
    store.store(NonVolatileKey::WifiSsid, &b"net".to_vec()).unwrap();
    store.store(NonVolatileKey::WifiPassword, &b"pw".to_vec()).unwrap();
    store.store(NonVolatileKey::WifiSsid, &b"other-net".to_vec()).unwrap();
    assert_eq!(
        store.fetch(NonVolatileKey::WifiPassword).unwrap().unwrap().0,
        b"pw".to_vec()
    );
    assert_eq!(
        store.fetch(NonVolatileKey::WifiSsid).unwrap().unwrap().0,
        b"other-net".to_vec()
    );
    assert_eq!(store.fetch(NonVolatileKey::FingridApiKey), Ok(None));
}

#[test]
fn exhausted_range_reports_full_storage() {
    let mut store = NonVolatileStorage::new();
    store.store(NonVolatileKey::WifiSsid, &b"keep-me".to_vec()).unwrap();
    let filler = vec![0x55u8; 64];
    let mut stores = 0usize;
    loop {
        match store.store(NonVolatileKey::EntsoeApiKey, &filler) {
            Ok(()) => stores += 1,
            Err(e) => {
                assert_eq!(e, StorageError::FullStorage);
                break;
            }
        }
        assert!(stores <= FLASH_SIZE, "storing must exhaust the range");
    }
    // One 9-byte record, then 66-byte records until no record fits.
    assert_eq!(stores, (FLASH_SIZE - 9) / 66);
    // Exhaustion silently truncated or overwrote nothing.
    assert_eq!(
        store.fetch(NonVolatileKey::WifiSsid).unwrap().unwrap().0,
        b"keep-me".to_vec()
    );
    assert_eq!(store.fetch(NonVolatileKey::EntsoeApiKey).unwrap().unwrap().0, filler);
}

#[test]
fn oversized_item_is_rejected() {
    let mut store = NonVolatileStorage::new();
    let too_big = vec![0x11u8; 65];
    assert_eq!(store.store(NonVolatileKey::WifiSsid, &too_big), Err(StorageError::ItemTooBig));
    assert_eq!(store.fetch(NonVolatileKey::WifiSsid), Ok(None));
}

#[test]
fn corrupt_image_is_reported_not_repaired() {
    // An unknown key byte at the front of the range.
    let mut image = vec![ERASED_BYTE; FLASH_SIZE];
    image[0] = 0x77;
    let mut store = NonVolatileStorage::from_image(image);
    assert_eq!(store.fetch(NonVolatileKey::WifiSsid), Err(StorageError::Corrupted));
    assert_eq!(
        store.store(NonVolatileKey::WifiSsid, &b"x".to_vec()),
        Err(StorageError::Corrupted)
    );
}

#[test]
fn record_running_past_the_range_is_corrupt() {
    // Valid records tile the range up to 16 bytes before its end; the last
    // record then claims 30 value bytes and runs past the end.
    let mut image = vec![ERASED_BYTE; FLASH_SIZE];
    let full_records = (FLASH_SIZE - 16) / 66;
    for i in 0..full_records {
        image[i * 66] = 0x00;
        image[i * 66 + 1] = 64;
    }
    let tail = full_records * 66;
    image[tail] = 0x02;
    image[tail + 1] = 30;
    let store = NonVolatileStorage::from_image(image);
    assert_eq!(store.fetch(NonVolatileKey::FingridApiKey), Err(StorageError::Corrupted));
}

#[test]
fn image_round_trip_survives_reboot() {
    // A store rebuilt from the same bytes sees the same records.
    let mut image = vec![ERASED_BYTE; FLASH_SIZE];
    image[0] = 0x02;
    image[1] = 3;
    image[2] = b'k';
    image[3] = b'e';
    image[4] = b'y';
    let store = NonVolatileStorage::from_image(image);
    assert_eq!(
        store.fetch(NonVolatileKey::FingridApiKey).unwrap().unwrap().0,
        b"key".to_vec()
    );
}

#[test]
fn key_wire_round_trip() {
    for k in ALL_KEYS {
        let mut buf = vec![0u8; 4];
        assert_eq!(k.serialize_into(&mut buf), Ok(1));
        let (back, used) = NonVolatileKey::deserialize_from(&buf).unwrap();
        assert_eq!(used, 1);
        assert_eq!(back, k);
    }
    assert_eq!(
        NonVolatileKey::deserialize_from(&vec![0x99u8]),
        Err(StorageError::SerializationError)
    );
    let mut empty: Vec<u8> = Vec::new();
    assert_eq!(
        NonVolatileKey::WifiSsid.serialize_into(&mut empty),
        Err(StorageError::BufferTooSmall(1))
    );
}

#[test]
fn item_keeps_its_bytes() {
    let item = NonVolatileItem::new(b"value".to_vec());
    assert_eq!(item.0, b"value".to_vec());
}
