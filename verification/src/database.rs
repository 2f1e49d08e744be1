//! The store: keys mapped to values that may expire.

use crate::clock::unix_millis;
use crate::error::ExecutionError;
use vstd::hash_map::StringHashMap;
use vstd::prelude::*;

verus! {

/// An instant in milliseconds since the Unix epoch.
pub type ExpireTime = u128;

/// What the store holds under a key.
#[derive(Debug)]
pub struct Data {
    pub value: String,
    /// The instant after which the entry counts as absent, if there is one.
    pub expire_time: Option<ExpireTime>,
}

/// An entry with its value as a sequence of characters.
pub ghost struct DataView {
    pub value: Seq<char>,
    pub expire_time: Option<ExpireTime>,
}

impl View for Data {
    type V = DataView;

    open spec fn view(&self) -> DataView {
        DataView { value: self.value@, expire_time: self.expire_time }
    }
}

impl Clone for Data {
    fn clone(&self) -> (copy: Self)
        ensures
            copy == *self,
    {
        Data { value: self.value.clone(), expire_time: self.expire_time }
    }
}

/// The view of an entry that was found, or `None`.
pub open spec fn found_view(found: Option<&Data>) -> Option<DataView> {
    match found {
        Some(data) => Some(data@),
        None => None,
    }
}

/// The view of an entry that was handed out, or `None`.
pub open spec fn taken_view(taken: Option<Data>) -> Option<DataView> {
    match taken {
        Some(data) => Some(data@),
        None => None,
    }
}

/// The answer to whether the instant `now` lies after `expire_time`; there
/// is none where the clock could not be read (`None`).
pub open spec fn expiry_check(expire_time: ExpireTime, now: Option<ExpireTime>) -> Result<
    bool,
    ExecutionError,
> {
    match now {
        Some(instant) => Ok(instant > expire_time),
        None => Err(ExecutionError::ClockBeforeEpoch),
    }
}

/// Whether an entry that expires at `expire_time` counts as expired at
/// `now`: the instant `now` lies after it, or the clock could not be read.
pub open spec fn expired_at(expire_time: ExpireTime, now: Option<ExpireTime>) -> bool {
    expiry_check(expire_time, now) != Ok::<bool, ExecutionError>(false)
}

/// Whether `data` can still be seen at `now`.
pub open spec fn is_live(data: DataView, now: Option<ExpireTime>) -> bool {
    match data.expire_time {
        Some(expire_time) => !expired_at(expire_time, now),
        None => true,
    }
}

/// The entry that a reader sees under `key` at `now`: the one the store
/// holds, unless it has expired.
pub open spec fn visible(store: Map<Seq<char>, DataView>, key: Seq<char>, now: Option<ExpireTime>) -> Option<
    DataView,
> {
    if store.contains_key(key) && is_live(store[key], now) {
        Some(store[key])
    } else {
        None
    }
}

/// The store after a look at `key` at `now`: an expired entry under `key` is
/// gone, everything else stays.
pub open spec fn purged(store: Map<Seq<char>, DataView>, key: Seq<char>, now: Option<ExpireTime>) -> Map<
    Seq<char>,
    DataView,
> {
    if store.contains_key(key) && !is_live(store[key], now) {
        store.remove(key)
    } else {
        store
    }
}

/// Whether the instant `now` lies after `expire_time`; fails where the clock
/// could not be read.
pub fn is_expired_at(expire_time: ExpireTime, now: Option<ExpireTime>) -> (r: Result<
    bool,
    ExecutionError,
>)
    ensures
        r == expiry_check(expire_time, now),
{
    match now {
        Some(instant) => Ok(instant > expire_time),
        None => Err(ExecutionError::ClockBeforeEpoch),
    }
}

/// Whether the system clock has passed `expire_time`; fails where the
/// clock reads a time before the epoch.
pub fn is_expired(expire_time: ExpireTime) -> (r: Result<bool, ExecutionError>)
    ensures
        exists|now: Option<ExpireTime>| r == #[trigger] expiry_check(expire_time, now),
{
    is_expired_at(expire_time, unix_millis())
}

/// A store of entries by key. An entry that has expired is never handed
/// out, and is removed when it is next looked up.
pub struct Database {
    db: StringHashMap<Data>,
}

impl View for Database {
    type V = Map<Seq<char>, DataView>;

    closed spec fn view(&self) -> Map<Seq<char>, DataView> {
        self.db@.map_values(|data: Data| data@)
    }
}

impl Database {
    /// An empty store.
    pub fn new() -> (db: Self)
        ensures
            db@ == Map::<Seq<char>, DataView>::empty(),
    {
        let db = Database { db: StringHashMap::new() };
        assert(db@ =~= Map::<Seq<char>, DataView>::empty());
        db
    }

    /// `data` if it has not expired at `now`.
    fn handle_expiry(data: &Data, now: Option<ExpireTime>) -> (kept: Option<&Data>)
        ensures
            kept == if is_live(data@, now) {
                Some(data)
            } else {
                None
            },
    {
        match data.expire_time {
            None => Some(data),
            Some(expire_time) => match is_expired_at(expire_time, now) {
                Ok(expired) => if expired {
                    None
                } else {
                    Some(data)
                },
                Err(_) => None,
            },
        }
    }

    /// Looks `key` up at the instant `now`: an entry that has expired is
    /// removed from the store and not returned.
    pub fn get_at(&mut self, key: &str, now: Option<ExpireTime>) -> (found: Option<&Data>)
        ensures
            final(self)@ == purged(old(self)@, key@, now),
            found_view(found) == visible(old(self)@, key@, now),
    {
        let expired = match self.db.get(key) {
            Some(data) => Self::handle_expiry(data, now).is_none(),
            None => false,
        };
        if expired {
            self.db.remove(key);
            assert(self@ =~= old(self)@.remove(key@));
            None
        } else {
            self.db.get(key)
        }
    }

    /// Stores `val` under `key` at the instant `now`, in place of any entry
    /// that was there, and returns that entry unless it had expired.
    pub fn set_at(&mut self, key: &str, val: &Data, now: Option<ExpireTime>) -> (previous: Option<Data>)
        ensures
            final(self)@ == old(self)@.insert(key@, val@),
            taken_view(previous) == visible(old(self)@, key@, now),
    {
        let previous = match self.db.get(key) {
            Some(data) => match Self::handle_expiry(data, now) {
                Some(kept) => Some(kept.clone()),
                None => None,
            },
            None => None,
        };
        self.db.insert(key.to_owned(), val.clone());
        assert(self@ =~= old(self)@.insert(key@, val@));
        previous
    }

    /// Looks `key` up now: an entry that has expired by the system clock is
    /// removed from the store and not returned.
    pub fn get(&mut self, key: &str) -> (found: Option<&Data>)
        ensures
            exists|now: Option<ExpireTime>|
                {
                    &&& final(self)@ == purged(old(self)@, key@, now)
                    &&& found_view(found) == #[trigger] visible(old(self)@, key@, now)
                },
    {
        let now = unix_millis();
        self.get_at(key, now)
    }

    /// Stores `val` under `key` in place of any entry that was there, and
    /// returns that entry unless it had expired by the system clock.
    pub fn set(&mut self, key: &str, val: &Data) -> (previous: Option<Data>)
        ensures
            final(self)@ == old(self)@.insert(key@, val@),
            exists|now: Option<ExpireTime>|
                taken_view(previous) == #[trigger] visible(old(self)@, key@, now),
    {
        let now = unix_millis();
        self.set_at(key, val, now)
    }
}

} // verus!
