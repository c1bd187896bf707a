//! The key-value store: one record for each key, with an optional instant at
//! which the record expires. Instants are milliseconds on the caller's clock.

use vstd::prelude::*;
use vstd::hash_map::StringHashMap;

verus! {

/// What the store keeps for one key.
pub struct Record {
    pub value: String,
    pub expires_at: Option<u64>,
}

/// A record as mathematical values.
pub struct RecordView {
    pub value: Seq<char>,
    pub expires_at: Option<u64>,
}

impl View for Record {
    type V = RecordView;

    open spec fn view(&self) -> RecordView {
        RecordView { value: self.value@, expires_at: self.expires_at }
    }
}

/// The instant at which a record written at `now` with the time to live
/// `ttl` expires. Without a time to live it never does; nor where the
/// instant would lie beyond the end of the clock.
pub open spec fn expiry(ttl: Option<u64>, now: u64) -> Option<u64> {
    match ttl {
        Some(t) => if now + t <= u64::MAX {
            Some((now + t) as u64)
        } else {
            None
        },
        None => None,
    }
}

/// Whether a record has expired at `now`.
pub open spec fn expired(record: RecordView, now: u64) -> bool {
    match record.expires_at {
        Some(t) => now >= t,
        None => false,
    }
}

/// The store after a write: the key holds the new record, whatever it held.
pub open spec fn after_set(
    store: Map<Seq<char>, RecordView>,
    key: Seq<char>,
    value: Seq<char>,
    ttl: Option<u64>,
    now: u64,
) -> Map<Seq<char>, RecordView> {
    store.insert(key, RecordView { value, expires_at: expiry(ttl, now) })
}

/// What a read at `now` returns: the value of the key's record, unless the
/// key has none or its record has expired.
pub open spec fn lookup(store: Map<Seq<char>, RecordView>, key: Seq<char>, now: u64) -> Option<
    Seq<char>,
> {
    if store.contains_key(key) && !expired(store[key], now) {
        Some(store[key].value)
    } else {
        None
    }
}

/// The store after a read at `now`: an expired record of the key is gone.
pub open spec fn after_get(store: Map<Seq<char>, RecordView>, key: Seq<char>, now: u64) -> Map<
    Seq<char>,
    RecordView,
> {
    if store.contains_key(key) && expired(store[key], now) {
        store.remove(key)
    } else {
        store
    }
}

/// A map from keys to records. Keys are unique; a write replaces the record
/// of its key, and expiry is enforced when a key is read.
pub struct Store {
    records: StringHashMap<Record>,
}

impl View for Store {
    type V = Map<Seq<char>, RecordView>;

    closed spec fn view(&self) -> Map<Seq<char>, RecordView> {
        self.records@.map_values(|r: Record| r@)
    }
}

impl Store {
    /// The empty store.
    pub fn new() -> (store: Store)
        ensures
            store@ == Map::<Seq<char>, RecordView>::empty(),
    {
        let store = Store { records: StringHashMap::new() };
        proof {
            assert(store@ =~= Map::<Seq<char>, RecordView>::empty());
        }
        store
    }

    /// Writes `value` under `key` at the instant `now`, with an optional time
    /// to live in milliseconds. An earlier record of the key is replaced,
    /// its expiry included.
    pub fn set(&mut self, key: String, value: String, ttl: Option<u64>, now: u64)
        ensures
            final(self)@ == after_set(old(self)@, key@, value@, ttl, now),
    {
        let expires_at = match ttl {
            Some(t) => now.checked_add(t),
            None => None,
        };
        let ghost record = RecordView { value: value@, expires_at };
        self.records.insert(key, Record { value, expires_at });
        proof {
            assert(self@ =~= old(self)@.insert(key@, record));
        }
    }

    /// Reads `key` at the instant `now`. A record that has expired is removed
    /// and reads as absent.
    pub fn get(&mut self, key: &str, now: u64) -> (res: Option<String>)
        ensures
            final(self)@ == after_get(old(self)@, key@, now),
            match res {
                Some(value) => lookup(old(self)@, key@, now) == Some(value@),
                None => lookup(old(self)@, key@, now) is None,
            },
    {
        let found: Option<(String, bool)> = match self.records.get(key) {
            Some(record) => {
                let gone = match record.expires_at {
                    Some(t) => now >= t,
                    None => false,
                };
                Some((record.value.clone(), gone))
            },
            None => None,
        };
        match found {
            Some((value, gone)) => {
                if gone {
                    self.records.remove(key);
                    proof {
                        assert(self@ =~= old(self)@.remove(key@));
                    }
                    None
                } else {
                    Some(value)
                }
            },
            None => None,
        }
    }
}

/// A key written without a time to live reads as its value at every instant.
pub proof fn lemma_set_then_get(
    store: Map<Seq<char>, RecordView>,
    key: Seq<char>,
    value: Seq<char>,
    written: u64,
    read: u64,
)
    ensures
        lookup(after_set(store, key, value, None, written), key, read) == Some(value),
        after_get(after_set(store, key, value, None, written), key, read) == after_set(
            store,
            key,
            value,
            None,
            written,
        ),
{
}

/// A key written with a time to live reads as its value before the time has
/// run out. From then on it reads as absent, the read removes it, and every
/// read after that finds it absent, whatever its instant.
pub proof fn lemma_expiry(
    store: Map<Seq<char>, RecordView>,
    key: Seq<char>,
    value: Seq<char>,
    ttl: u64,
    written: u64,
    read: u64,
    again: u64,
)
    requires
        written + ttl <= u64::MAX,
    ensures
        read < written + ttl ==> lookup(after_set(store, key, value, Some(ttl), written), key, read)
            == Some(value),
        read >= written + ttl ==> {
            let purged = after_get(after_set(store, key, value, Some(ttl), written), key, read);
            &&& lookup(after_set(store, key, value, Some(ttl), written), key, read) is None
            &&& !purged.contains_key(key)
            &&& lookup(purged, key, again) is None
        },
{
}

/// A second write replaces the first, its absence of expiry included: the
/// key reads as the second value before the second write's time to live has
/// run out, and as absent from then on.
pub proof fn lemma_overwrite(
    store: Map<Seq<char>, RecordView>,
    key: Seq<char>,
    first: Seq<char>,
    second: Seq<char>,
    ttl: u64,
    written_first: u64,
    written_second: u64,
    read: u64,
)
    requires
        written_second + ttl <= u64::MAX,
    ensures
        ({
            let twice = after_set(
                after_set(store, key, first, None, written_first),
                key,
                second,
                Some(ttl),
                written_second,
            );
            &&& twice == after_set(store, key, second, Some(ttl), written_second)
            &&& read < written_second + ttl ==> lookup(twice, key, read) == Some(second)
            &&& read >= written_second + ttl ==> lookup(twice, key, read) is None
        }),
{
    let once = after_set(store, key, first, None, written_first);
    assert(after_set(once, key, second, Some(ttl), written_second) =~= after_set(
        store,
        key,
        second,
        Some(ttl),
        written_second,
    ));
}

} // verus!
