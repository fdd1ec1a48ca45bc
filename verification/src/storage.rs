//! Durable key-value store over a fixed flash byte range.
//!
//! The range is an append-only log of `(key, value)` records scanned
//! front-to-back; no index or header exists, and the current value of a key
//! is the last record for it in the log. A record is one key byte, one
//! length byte, then that many value bytes; erased flash reads as
//! [`ERASED_BYTE`], so the first erased byte position is the end of the log
//! and the write cursor. Storing never overwrites previously written bytes:
//! a new record is appended and the cursor advances, until the range is
//! exhausted and [`StorageError::FullStorage`] is reported.
//!
//! The store's mathematical view is the map from each key to the value of
//! its most recent record, derived from the raw bytes by [`spec_scan`] and
//! [`spec_records_map`].

use vstd::prelude::*;
use crate::messages::MAX_PAYLOAD_LEN;

verus! {

/// Length of the flash byte range backing the store.
pub const FLASH_SIZE: usize = 0x4000;

/// What erased, never-written flash reads as.
pub const ERASED_BYTE: u8 = 0xFF;

/// What a caller asks the storage task to do.
#[derive(Debug, Clone, Copy, PartialEq, Eq, Structural)]
pub enum StorageMessage {
    Fetch,
    Store,
}

/// The complete universe of persisted slots; no dynamic keys exist.
#[derive(Debug, Clone, Copy, PartialEq, Eq, Hash, Structural)]
pub enum NonVolatileKey {
    WifiSsid,
    WifiPassword,
    FingridApiKey,
    EntsoeApiKey,
}

/// How fetching or storing a record can fail.
#[derive(Debug, Clone, Copy, PartialEq, Eq, Structural)]
pub enum StorageError {
    /// An error in the underlying storage device.
    Storage,
    /// The item cannot be stored because the range is exhausted.
    FullStorage,
    /// The log is structurally invalid; erase the range to recover.
    Corrupted,
    /// The provided buffer was too big to be used.
    BufferTooBig,
    /// The provided buffer was too small; the payload names the needed size.
    BufferTooSmall(usize),
    /// A key or value failed to serialize or deserialize.
    SerializationError,
    /// The item cannot fit even in a freshly erased range.
    ItemTooBig,
}

/// The wire byte a key is stored as.
pub open spec fn spec_key_byte(k: NonVolatileKey) -> u8 {
    match k {
        NonVolatileKey::WifiSsid => 0x00,
        NonVolatileKey::WifiPassword => 0x01,
        NonVolatileKey::FingridApiKey => 0x02,
        NonVolatileKey::EntsoeApiKey => 0x03,
    }
}

/// The key a wire byte stands for, if any.
pub open spec fn spec_byte_key(b: u8) -> Option<NonVolatileKey> {
    if b == 0x00 {
        Some(NonVolatileKey::WifiSsid)
    } else if b == 0x01 {
        Some(NonVolatileKey::WifiPassword)
    } else if b == 0x02 {
        Some(NonVolatileKey::FingridApiKey)
    } else if b == 0x03 {
        Some(NonVolatileKey::EntsoeApiKey)
    } else {
        None
    }
}

impl NonVolatileKey {
    /// Writes this key's single wire byte at the front of `buffer` and
    /// returns how many bytes were written.
    pub fn serialize_into(&self, buffer: &mut Vec<u8>) -> (r: Result<usize, StorageError>)
        ensures
            match r {
                Ok(n) => {
                    &&& n == 1
                    &&& old(buffer)@.len() >= 1
                    &&& final(buffer)@ == old(buffer)@.update(0, spec_key_byte(*self))
                },
                Err(e) => {
                    &&& e == StorageError::BufferTooSmall(1)
                    &&& old(buffer)@.len() == 0
                    &&& final(buffer)@ == old(buffer)@
                },
            },
    {
        if buffer.len() == 0 {
            return Err(StorageError::BufferTooSmall(1));
        }
        let b: u8 = match self {
            NonVolatileKey::WifiSsid => 0x00,
            NonVolatileKey::WifiPassword => 0x01,
            NonVolatileKey::FingridApiKey => 0x02,
            NonVolatileKey::EntsoeApiKey => 0x03,
        };
        buffer[0] = b;
        Ok(1)
    }

    /// Reads a key back from the front of `buffer`: the key and how many
    /// bytes it occupied.
    pub fn deserialize_from(buffer: &Vec<u8>) -> (r: Result<(Self, usize), StorageError>)
        ensures
            match r {
                Ok((k, n)) => {
                    &&& n == 1
                    &&& buffer@.len() >= 1
                    &&& spec_byte_key(buffer@[0]) == Some(k)
                },
                Err(e) => {
                    &&& e == StorageError::SerializationError
                    &&& (buffer@.len() == 0 || spec_byte_key(buffer@[0]) is None)
                },
            },
    {
        if buffer.len() == 0 {
            return Err(StorageError::SerializationError);
        }
        let b = buffer[0];
        if b == 0x00 {
            Ok((NonVolatileKey::WifiSsid, 1))
        } else if b == 0x01 {
            Ok((NonVolatileKey::WifiPassword, 1))
        } else if b == 0x02 {
            Ok((NonVolatileKey::FingridApiKey, 1))
        } else if b == 0x03 {
            Ok((NonVolatileKey::EntsoeApiKey, 1))
        } else {
            Err(StorageError::SerializationError)
        }
    }
}

/// A stored value: a byte string of at most [`MAX_PAYLOAD_LEN`] bytes.
#[derive(Debug, Clone, PartialEq, Eq)]
pub struct NonVolatileItem(pub Vec<u8>);

impl NonVolatileItem {
    pub fn new(item: Vec<u8>) -> (r: Self)
        requires
            item@.len() <= MAX_PAYLOAD_LEN,
        ensures
            r.0@ == item@,
    {
        Self(item)
    }
}

/// Scans the log from `pos`: the records in log order and the log's end
/// position, or `None` when the bytes are structurally invalid (an unknown
/// key byte, an oversized length, or a record running past the range).
pub open spec fn spec_scan(flash: Seq<u8>, pos: int) -> Option<
    (Seq<(NonVolatileKey, Seq<u8>)>, int),
>
    decreases flash.len() - pos,
{
    if !(0 <= pos <= flash.len()) {
        None
    } else if pos == flash.len() {
        Some((Seq::empty(), pos))
    } else if flash[pos] == ERASED_BYTE {
        Some((Seq::empty(), pos))
    } else {
        match spec_byte_key(flash[pos]) {
            None => None,
            Some(k) => {
                if pos + 1 >= flash.len() {
                    None
                } else {
                    let len = flash[pos + 1] as int;
                    if len > MAX_PAYLOAD_LEN || pos + 2 + len > flash.len() {
                        None
                    } else {
                        match spec_scan(flash, pos + 2 + len) {
                            None => None,
                            Some((rest, end)) => Some(
                                (
                                    seq![(k, flash.subrange(pos + 2, pos + 2 + len))] + rest,
                                    end,
                                ),
                            ),
                        }
                    }
                }
            },
        }
    }
}

/// Folds records into the current bindings, last write winning.
pub open spec fn spec_records_map(rs: Seq<(NonVolatileKey, Seq<u8>)>) -> Map<
    NonVolatileKey,
    Seq<u8>,
>
    decreases rs.len(),
{
    if rs.len() == 0 {
        Map::empty()
    } else {
        spec_records_map(rs.drop_last()).insert(rs.last().0, rs.last().1)
    }
}

/// Every byte from `pos` to the end of the range reads as erased.
pub open spec fn spec_tail_erased(flash: Seq<u8>, pos: int) -> bool {
    forall|i: int| pos <= i < flash.len() ==> flash[i] == ERASED_BYTE
}

/// A scan that succeeds ends between its start and the end of the range.
pub proof fn lemma_scan_end_bounds(flash: Seq<u8>, pos: int)
    requires
        spec_scan(flash, pos) is Some,
    ensures
        pos <= spec_scan(flash, pos).unwrap().1 <= flash.len(),
    decreases flash.len() - pos,
{
    if pos == flash.len() || flash[pos] == ERASED_BYTE {
    } else {
        let len = flash[pos + 1] as int;
        lemma_scan_end_bounds(flash, pos + 2 + len);
    }
}

/// Scanning is unaffected by bytes at or past the log's end: if a second
/// flash image agrees with the first on everything below the first's log
/// end, the first's records reappear at the front of the second's scan.
pub proof fn lemma_scan_agrees(f1: Seq<u8>, f2: Seq<u8>, pos: int)
    requires
        spec_scan(f1, pos) is Some,
        f1.len() == f2.len(),
        forall|i: int|
            pos <= i < spec_scan(f1, pos).unwrap().1 ==> f1[i] == f2[i],
    ensures
        ({
            let (rs, end) = spec_scan(f1, pos).unwrap();
            match spec_scan(f2, end) {
                Some((rs2, end2)) => spec_scan(f2, pos) == Some((rs + rs2, end2)),
                None => spec_scan(f2, pos) is None,
            }
        }),
    decreases f1.len() - pos,
{
    let (rs, end) = spec_scan(f1, pos).unwrap();
    if pos == f1.len() || f1[pos] == ERASED_BYTE {
        assert(rs =~= Seq::<(NonVolatileKey, Seq<u8>)>::empty());
        match spec_scan(f2, end) {
            Some((rs2, end2)) => {
                assert(rs + rs2 =~= rs2);
            },
            None => {},
        }
    } else {
        let k = spec_byte_key(f1[pos]).unwrap();
        let len = f1[pos + 1] as int;
        let (rest, _) = spec_scan(f1, pos + 2 + len).unwrap();
        lemma_scan_end_bounds(f1, pos + 2 + len);
        lemma_scan_agrees(f1, f2, pos + 2 + len);
        assert(f2[pos] == f1[pos] && f2[pos + 1] == f1[pos + 1]);
        assert(f2.subrange(pos + 2, pos + 2 + len) =~= f1.subrange(pos + 2, pos + 2 + len));
        match spec_scan(f2, end) {
            Some((rs2, end2)) => {
                assert(spec_scan(f2, pos + 2 + len) == Some((rest + rs2, end2)));
                assert(seq![(k, f2.subrange(pos + 2, pos + 2 + len))] + (rest + rs2) =~= rs
                    + rs2);
            },
            None => {},
        }
    }
}

/// The durable key-value store over its flash byte range.
///
/// Exactly one instance per device must own the range; callers serialize all
/// access through one exclusive guard, held for the duration of a single
/// fetch or store.
pub struct NonVolatileStorage {
    flash: Vec<u8>,
}

impl View for NonVolatileStorage {
    type V = Map<NonVolatileKey, Seq<u8>>;

    open spec fn view(&self) -> Map<NonVolatileKey, Seq<u8>> {
        spec_records_map(spec_scan(self.flash_bytes(), 0).unwrap().0)
    }
}

impl NonVolatileStorage {
    /// The raw bytes of the flash range.
    pub closed spec fn flash_bytes(&self) -> Seq<u8> {
        self.flash@
    }

    /// Where the log ends: the write cursor.
    pub open spec fn log_end(&self) -> int {
        spec_scan(self.flash_bytes(), 0).unwrap().1
    }

    /// A structurally sound store: the range has its fixed size, the log
    /// scans without error, and everything past the log's end is erased.
    pub open spec fn wf(&self) -> bool {
        &&& self.flash_bytes().len() == FLASH_SIZE
        &&& spec_scan(self.flash_bytes(), 0) is Some
        &&& spec_tail_erased(self.flash_bytes(), self.log_end())
    }

    /// A store over a freshly erased range: empty, with the cursor at the
    /// front.
    pub fn new() -> (r: Self)
        ensures
            r.wf(),
            r@ == Map::<NonVolatileKey, Seq<u8>>::empty(),
            r.log_end() == 0,
    {
        let flash: Vec<u8> = vec![ERASED_BYTE; FLASH_SIZE];
        let r = NonVolatileStorage { flash };
        proof {
            assert(r.flash_bytes()[0] == ERASED_BYTE);
            assert(spec_scan(r.flash_bytes(), 0) == Some(
                (Seq::<(NonVolatileKey, Seq<u8>)>::empty(), 0int),
            ));
        }
        r
    }

    /// Adopts a flash range exactly as read back from the device, for
    /// example after a power cycle; the image may be corrupt.
    pub fn from_image(image: Vec<u8>) -> (r: Self)
        requires
            image@.len() == FLASH_SIZE,
        ensures
            r.flash_bytes() == image@,
    {
        NonVolatileStorage { flash: image }
    }

    /// Walks the log once: the write cursor, or the corruption it found.
    fn scan_log(&self) -> (r: Result<usize, StorageError>)
        requires
            self.flash_bytes().len() == FLASH_SIZE,
        ensures
            match r {
                Ok(end) => {
                    &&& spec_scan(self.flash_bytes(), 0) is Some
                    &&& end as int == self.log_end()
                    &&& end <= FLASH_SIZE
                },
                Err(e) => {
                    &&& e == StorageError::Corrupted
                    &&& spec_scan(self.flash_bytes(), 0) is None
                },
            },
    {
        let ghost f = self.flash_bytes();
        let ghost processed: Seq<(NonVolatileKey, Seq<u8>)> = Seq::empty();
        let mut pos: usize = 0;
        while pos < FLASH_SIZE
            invariant
                self.flash_bytes() == f,
                f.len() == FLASH_SIZE,
                0 <= pos <= FLASH_SIZE,
                forall|rest: Seq<(NonVolatileKey, Seq<u8>)>, end: int|
                    spec_scan(f, pos as int) == Some((rest, end)) ==> spec_scan(f, 0) == Some(
                        (processed + rest, end),
                    ),
                spec_scan(f, pos as int) is None ==> spec_scan(f, 0) is None,
            decreases FLASH_SIZE - pos,
        {
            let b = self.flash[pos];
            if b == ERASED_BYTE {
                proof {
                    assert(spec_scan(f, pos as int) == Some(
                        (Seq::<(NonVolatileKey, Seq<u8>)>::empty(), pos as int),
                    ));
                    assert(spec_scan(f, 0) == Some(
                        (processed + Seq::<(NonVolatileKey, Seq<u8>)>::empty(), pos as int),
                    ));
                }
                return Ok(pos);
            }
            if b >= 0x04 {
                assert(spec_scan(f, pos as int) is None);
                return Err(StorageError::Corrupted);
            }
            if pos + 1 >= FLASH_SIZE {
                assert(spec_scan(f, pos as int) is None);
                return Err(StorageError::Corrupted);
            }
            let len = self.flash[pos + 1] as usize;
            if len > MAX_PAYLOAD_LEN || pos + 2 + len > FLASH_SIZE {
                assert(spec_scan(f, pos as int) is None);
                return Err(StorageError::Corrupted);
            }
            proof {
                let k = spec_byte_key(f[pos as int]).unwrap();
                let rec = (k, f.subrange(pos + 2, pos + 2 + len));
                assert forall|rest: Seq<(NonVolatileKey, Seq<u8>)>, end: int|
                    spec_scan(f, pos + 2 + len) == Some((rest, end)) implies spec_scan(f, 0)
                    == Some((processed.push(rec) + rest, end)) by {
                    assert(spec_scan(f, pos as int) == Some((seq![rec] + rest, end)));
                    assert(processed + (seq![rec] + rest) =~= processed.push(rec) + rest);
                }
                assert(spec_scan(f, pos + 2 + len) is None ==> spec_scan(
                    f,
                    pos as int,
                ) is None);
                processed = processed.push(rec);
            }
            pos = pos + 2 + len;
        }
        proof {
            assert(spec_scan(f, pos as int) == Some(
                (Seq::<(NonVolatileKey, Seq<u8>)>::empty(), pos as int),
            ));
            assert(spec_scan(f, 0) == Some(
                (processed + Seq::<(NonVolatileKey, Seq<u8>)>::empty(), pos as int),
            ));
        }
        Ok(pos)
    }

    /// Returns the stored item under `key`: the value of the most recent
    /// record for it, `None` when no record for it exists, or
    /// [`StorageError::Corrupted`] when the log is structurally invalid.
    pub fn fetch(&self, key: NonVolatileKey) -> (r: Result<
        Option<NonVolatileItem>,
        StorageError,
    >)
        requires
            self.flash_bytes().len() == FLASH_SIZE,
        ensures
            match r {
                Ok(found) => {
                    &&& spec_scan(self.flash_bytes(), 0) is Some
                    &&& match found {
                        Some(item) => self@.contains_key(key) && item.0@ == self@[key]
                            && item.0@.len() <= MAX_PAYLOAD_LEN,
                        None => !self@.contains_key(key),
                    }
                },
                Err(e) => {
                    &&& e == StorageError::Corrupted
                    &&& spec_scan(self.flash_bytes(), 0) is None
                },
            },
    {
        let ghost f = self.flash_bytes();
        let ghost processed: Seq<(NonVolatileKey, Seq<u8>)> = Seq::empty();
        let mut best: Option<Vec<u8>> = None;
        let mut pos: usize = 0;
        while pos < FLASH_SIZE
            invariant
                self.flash_bytes() == f,
                f.len() == FLASH_SIZE,
                0 <= pos <= FLASH_SIZE,
                forall|rest: Seq<(NonVolatileKey, Seq<u8>)>, end: int|
                    spec_scan(f, pos as int) == Some((rest, end)) ==> spec_scan(f, 0) == Some(
                        (processed + rest, end),
                    ),
                spec_scan(f, pos as int) is None ==> spec_scan(f, 0) is None,
                match best {
                    Some(v) => spec_records_map(processed).contains_key(key)
                        && spec_records_map(processed)[key] == v@ && v@.len()
                        <= MAX_PAYLOAD_LEN,
                    None => !spec_records_map(processed).contains_key(key),
                },
            decreases FLASH_SIZE - pos,
        {
            let b = self.flash[pos];
            if b == ERASED_BYTE {
                proof {
                    assert(spec_scan(f, pos as int) == Some(
                        (Seq::<(NonVolatileKey, Seq<u8>)>::empty(), pos as int),
                    ));
                    assert(spec_scan(f, 0) == Some(
                        (processed + Seq::<(NonVolatileKey, Seq<u8>)>::empty(), pos as int),
                    ));
                    assert(processed + Seq::<(NonVolatileKey, Seq<u8>)>::empty() =~= processed);
                    assert(self@ == spec_records_map(processed));
                }
                return Ok(match best {
                    Some(v) => Some(NonVolatileItem(v)),
                    None => None,
                });
            }
            if b >= 0x04 {
                assert(spec_scan(f, pos as int) is None);
                return Err(StorageError::Corrupted);
            }
            if pos + 1 >= FLASH_SIZE {
                assert(spec_scan(f, pos as int) is None);
                return Err(StorageError::Corrupted);
            }
            let len = self.flash[pos + 1] as usize;
            if len > MAX_PAYLOAD_LEN || pos + 2 + len > FLASH_SIZE {
                assert(spec_scan(f, pos as int) is None);
                return Err(StorageError::Corrupted);
            }
            let rec_key = if b == 0x00 {
                NonVolatileKey::WifiSsid
            } else if b == 0x01 {
                NonVolatileKey::WifiPassword
            } else if b == 0x02 {
                NonVolatileKey::FingridApiKey
            } else {
                NonVolatileKey::EntsoeApiKey
            };
            assert(spec_byte_key(f[pos as int]) == Some(rec_key));
            if rec_key == key {
                best = Some(crate::codec::bytes_range(&self.flash, pos + 2, pos + 2 + len));
            }
            proof {
                let k = spec_byte_key(f[pos as int]).unwrap();
                let rec = (k, f.subrange(pos + 2, pos + 2 + len));
                assert forall|rest: Seq<(NonVolatileKey, Seq<u8>)>, end: int|
                    spec_scan(f, pos + 2 + len) == Some((rest, end)) implies spec_scan(f, 0)
                    == Some((processed.push(rec) + rest, end)) by {
                    assert(spec_scan(f, pos as int) == Some((seq![rec] + rest, end)));
                    assert(processed + (seq![rec] + rest) =~= processed.push(rec) + rest);
                }
                assert(spec_scan(f, pos + 2 + len) is None ==> spec_scan(
                    f,
                    pos as int,
                ) is None);
                assert(processed.push(rec).drop_last() =~= processed);
                assert(spec_records_map(processed.push(rec)) == spec_records_map(
                    processed,
                ).insert(k, rec.1));
                processed = processed.push(rec);
            }
            pos = pos + 2 + len;
        }
        proof {
            assert(spec_scan(f, pos as int) == Some(
                (Seq::<(NonVolatileKey, Seq<u8>)>::empty(), pos as int),
            ));
            assert(spec_scan(f, 0) == Some(
                (processed + Seq::<(NonVolatileKey, Seq<u8>)>::empty(), pos as int),
            ));
            assert(processed + Seq::<(NonVolatileKey, Seq<u8>)>::empty() =~= processed);
            assert(self@ == spec_records_map(processed));
        }
        Ok(match best {
            Some(v) => Some(NonVolatileItem(v)),
            None => None,
        })
    }

    /// Appends a record for `key` holding `item`, never touching previously
    /// written bytes. Afterwards `key` binds to `item` and every other key
    /// keeps its binding. Fails with [`StorageError::ItemTooBig`] for a
    /// value over the length bound, [`StorageError::Corrupted`] on a
    /// structurally invalid range, and [`StorageError::FullStorage`] when
    /// the record does not fit between the cursor and the end of the range;
    /// no failure changes the range.
    pub fn store(&mut self, key: NonVolatileKey, item: &Vec<u8>) -> (r: Result<
        (),
        StorageError,
    >)
        requires
            old(self).flash_bytes().len() == FLASH_SIZE,
        ensures
            final(self).flash_bytes().len() == FLASH_SIZE,
            match r {
                Ok(()) => {
                    &&& old(self).wf()
                    &&& item@.len() <= MAX_PAYLOAD_LEN
                    &&& old(self).log_end() + 2 + item@.len() <= FLASH_SIZE
                    &&& final(self).wf()
                    &&& final(self)@ == old(self)@.insert(key, item@)
                    &&& final(self).log_end() == old(self).log_end() + 2 + item@.len()
                },
                Err(StorageError::ItemTooBig) => {
                    &&& item@.len() > MAX_PAYLOAD_LEN
                    &&& final(self).flash_bytes() == old(self).flash_bytes()
                },
                Err(StorageError::Corrupted) => {
                    &&& item@.len() <= MAX_PAYLOAD_LEN
                    &&& !old(self).wf()
                    &&& final(self).flash_bytes() == old(self).flash_bytes()
                },
                Err(StorageError::FullStorage) => {
                    &&& item@.len() <= MAX_PAYLOAD_LEN
                    &&& old(self).wf()
                    &&& old(self).log_end() + 2 + item@.len() > FLASH_SIZE
                    &&& final(self).flash_bytes() == old(self).flash_bytes()
                },
                Err(_) => false,
            },
    {
        if item.len() > MAX_PAYLOAD_LEN {
            return Err(StorageError::ItemTooBig);
        }
        let end = match self.scan_log() {
            Ok(e) => e,
            Err(e) => {
                return Err(e);
            },
        };
        let ghost f0 = self.flash_bytes();
        let mut j: usize = end;
        while j < FLASH_SIZE
            invariant
                self.flash_bytes() == f0,
                f0 == old(self).flash_bytes(),
                f0.len() == FLASH_SIZE,
                item@.len() <= MAX_PAYLOAD_LEN,
                spec_scan(f0, 0) is Some,
                end as int == spec_scan(f0, 0).unwrap().1,
                end <= j <= FLASH_SIZE,
                forall|i: int| end <= i < j ==> f0[i] == ERASED_BYTE,
            decreases FLASH_SIZE - j,
        {
            if self.flash[j] != ERASED_BYTE {
                assert(!spec_tail_erased(f0, end as int));
                return Err(StorageError::Corrupted);
            }
            j = j + 1;
        }
        assert(spec_tail_erased(f0, end as int));
        assert(old(self).wf());
        if end + 2 + item.len() > FLASH_SIZE {
            return Err(StorageError::FullStorage);
        }
        let ghost rs0 = spec_scan(f0, 0).unwrap().0;
        let kb: u8 = match key {
            NonVolatileKey::WifiSsid => 0x00,
            NonVolatileKey::WifiPassword => 0x01,
            NonVolatileKey::FingridApiKey => 0x02,
            NonVolatileKey::EntsoeApiKey => 0x03,
        };
        self.flash[end] = kb;
        self.flash[end + 1] = item.len() as u8;
        write_bytes(&mut self.flash, end + 2, item);
        proof {
            let f1 = self.flash_bytes();
            let endi = end as int;
            let endn = endi + 2 + item@.len();
            assert(f1.len() == FLASH_SIZE);
            assert forall|i: int| 0 <= i < endi implies f0[i] == f1[i] by {}
            assert(spec_byte_key(kb) == Some(key));
            assert(f1[endi] == kb);
            assert(f1[endi + 1] == item@.len() as u8);
            assert(f1[endi + 1] as int == item@.len());
            // The new log ends right after the appended record.
            if endn < FLASH_SIZE {
                assert(f1[endn] == f0[endn]);
                assert(f0[endn] == ERASED_BYTE);
                assert(spec_scan(f1, endn) == Some(
                    (Seq::<(NonVolatileKey, Seq<u8>)>::empty(), endn),
                ));
            } else {
                assert(spec_scan(f1, endn) == Some(
                    (Seq::<(NonVolatileKey, Seq<u8>)>::empty(), endn),
                ));
            }
            let written = f1.subrange(endi + 2, endn);
            assert(written =~= item@);
            let rec = (key, written);
            assert(spec_scan(f1, endi) == Some((seq![rec] + Seq::empty(), endn)));
            lemma_scan_agrees(f0, f1, 0);
            assert(seq![rec] + Seq::<(NonVolatileKey, Seq<u8>)>::empty() =~= seq![rec]);
            assert(spec_scan(f1, 0) == Some((rs0 + seq![rec], endn)));
            // Last write wins: the view gains exactly the new binding.
            assert((rs0 + seq![rec]).drop_last() =~= rs0);
            assert((rs0 + seq![rec]).last() == rec);
            assert(spec_records_map(rs0 + seq![rec]) == spec_records_map(rs0).insert(
                key,
                item@,
            ));
            // Everything past the new cursor is still erased.
            assert forall|i: int| endn <= i < FLASH_SIZE implies f1[i] == ERASED_BYTE by {
                assert(f1[i] == f0[i]);
            }
        }
        Ok(())
    }
}

/// Store/fetch idempotence. A successful store leaves the view
/// `m.insert(k, v)` and a fetch returns the view's binding, so fetching `k`
/// right after storing `v` under it finds exactly `v`.
pub proof fn lemma_store_then_fetch(
    m: Map<NonVolatileKey, Seq<u8>>,
    k: NonVolatileKey,
    v: Seq<u8>,
)
    ensures
        m.insert(k, v).contains_key(k),
        m.insert(k, v)[k] == v,
{
}

/// Last write wins. Two stores under one key leave the second value, and
/// every other key keeps exactly its prior binding.
pub proof fn lemma_last_write_wins(
    m: Map<NonVolatileKey, Seq<u8>>,
    k: NonVolatileKey,
    v1: Seq<u8>,
    v2: Seq<u8>,
)
    ensures
        m.insert(k, v1).insert(k, v2).contains_key(k),
        m.insert(k, v1).insert(k, v2)[k] == v2,
        forall|k2: NonVolatileKey|
            k2 != k ==> #[trigger] m.insert(k, v1).insert(k, v2).contains_key(k2)
                == m.contains_key(k2),
        forall|k2: NonVolatileKey|
            k2 != k && m.contains_key(k2) ==> #[trigger] m.insert(k, v1).insert(k, v2)[k2]
                == m[k2],
{
}

/// Overwrites `flash[at..at + src.len())` with `src`, touching nothing else.
fn write_bytes(flash: &mut Vec<u8>, at: usize, src: &Vec<u8>)
    requires
        at + src@.len() <= old(flash)@.len(),
    ensures
        final(flash)@.len() == old(flash)@.len(),
        forall|i: int|
            0 <= i < final(flash)@.len() ==> final(flash)@[i] == (if at <= i < at + src@.len() {
                src@[i - at]
            } else {
                old(flash)@[i]
            }),
{
    let n = flash.len();
    let mut j: usize = 0;
    while j < src.len()
        invariant
            j <= src@.len(),
            at + src@.len() <= n,
            n == flash@.len(),
            flash@.len() == old(flash)@.len(),
            forall|i: int|
                0 <= i < flash@.len() ==> flash@[i] == (if at <= i < at + j {
                    src@[i - at]
                } else {
                    old(flash)@[i]
                }),
        decreases src@.len() - j,
    {
        flash[at + j] = src[j];
        j = j + 1;
    }
}

} // verus!
