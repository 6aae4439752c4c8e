//! What the bot keeps between runs: the last sync token, the transaction
//! counter, and when it last corrected someone in each room.
use vstd::prelude::*;
use crate::text::{push_char, str_eq};

verus! {

/// The decimal digit for `d`.
pub open spec fn digit_char(d: int) -> char {
    (('0' as u32) + d) as char
}

/// The decimal writing of `n`, without leading zeros.
pub open spec fn decimal_text(n: nat) -> Seq<char>
    decreases n,
{
    if n < 10 {
        seq![digit_char(n as int)]
    } else {
        decimal_text(n / 10) + seq![digit_char((n % 10) as int)]
    }
}

/// `n` written in decimal.
pub fn decimal_string(n: u64) -> (r: String)
    ensures
        r@ == decimal_text(n as nat),
    decreases n,
{
    let d: u8 = (n % 10) as u8;
    let c: char = (48u8 + d) as char;
    assert(c == digit_char((n % 10) as int));
    if n < 10 {
        let mut s = String::new();
        push_char(&mut s, c);
        assert(s@ =~= seq![c]);
        s
    } else {
        let mut s = decimal_string(n / 10);
        push_char(&mut s, c);
        s
    }
}

/// The persistent state of the bot.
#[derive(Debug)]
pub struct Storage {
    /// The last sync token.
    pub last_sync: Option<String>,
    /// The transaction id of the last message sent.
    pub last_txn_id: u64,
    /// For each room, when the bot last corrected someone there, in
    /// seconds since the Unix epoch.
    pub last_correction_time: Vec<(String, u64)>,
}

/// The time of the first entry for `room`.
pub open spec fn correction_time_of(v: Seq<(String, u64)>, room: Seq<char>) -> Option<u64>
    decreases v.len(),
{
    if v.len() == 0 {
        None
    } else if v[0].0@ == room {
        Some(v[0].1)
    } else {
        correction_time_of(v.drop_first(), room)
    }
}

/// Whether at least five minutes have passed since the last correction;
/// a clock that went back allows none.
pub open spec fn elapsed_allows(last: Option<u64>, now: u64) -> bool {
    match last {
        None => true,
        Some(t) => t <= now && now - t >= 300,
    }
}

impl Storage {
    /// Empty storage, as on a first start.
    pub fn new() -> (r: Storage)
        ensures
            r.last_sync is None,
            r.last_txn_id == 0,
            r.last_correction_time@.len() == 0,
    {
        Storage { last_sync: None, last_txn_id: 0, last_correction_time: Vec::new() }
    }

    /// Counts one more transaction and gives its id.
    pub fn next_txn_id(&mut self) -> (r: String)
        requires
            old(self).last_txn_id < u64::MAX,
        ensures
            final(self).last_txn_id == old(self).last_txn_id + 1,
            final(self).last_sync == old(self).last_sync,
            final(self).last_correction_time@ == old(self).last_correction_time@,
            r@ == decimal_text(final(self).last_txn_id as nat),
    {
        self.last_txn_id = self.last_txn_id + 1;
        decimal_string(self.last_txn_id)
    }

    /// Whether a correction may be made in `room_id` at `now` (seconds
    /// since the Unix epoch): always where none was made, and otherwise once
    /// five minutes have passed.
    pub fn correction_time_cooldown(&self, room_id: &str, now: u64) -> (b: bool)
        ensures
            b == elapsed_allows(correction_time_of(self.last_correction_time@, room_id@), now),
    {
        let v = &self.last_correction_time;
        let mut i: usize = 0;
        assert(v@.skip(0) =~= v@);
        while i < v.len()
            invariant
                i <= v@.len(),
                v@ == self.last_correction_time@,
                correction_time_of(v@, room_id@) == correction_time_of(v@.skip(i as int), room_id@),
            decreases v@.len() - i,
        {
            proof {
                assert(v@.skip(i as int).drop_first() =~= v@.skip(i + 1));
                assert(v@.skip(i as int)[0] == v@[i as int]);
            }
            if str_eq(v[i].0.as_str(), room_id) {
                let t = v[i].1;
                let b = t <= now && now - t >= 300;
                return b;
            }
            i = i + 1;
        }
        true
    }

    /// The last sync token.
    pub fn get_last_sync(&self) -> (r: Option<String>)
        ensures
            match (r, self.last_sync) {
                (Some(a), Some(b)) => a@ == b@,
                (None, None) => true,
                _ => false,
            },
    {
        match &self.last_sync {
            Some(s) => Some(s.clone()),
            None => None,
        }
    }

    /// Replaces the last sync token.
    pub fn set_last_sync(&mut self, last_sync: Option<String>)
        ensures
            final(self).last_sync == last_sync,
            final(self).last_txn_id == old(self).last_txn_id,
            final(self).last_correction_time@ == old(self).last_correction_time@,
    {
        self.last_sync = last_sync;
    }

    /// Records a correction in `room_id` at `time`: the cooldown of that room
    /// then counts from `time`, and no other room changes.
    pub fn set_last_correction_time(&mut self, room_id: &str, time: u64)
        ensures
            correction_time_of(final(self).last_correction_time@, room_id@) == Some(time),
            forall|r: Seq<char>| r != room_id@ ==> correction_time_of(
                #[trigger] final(self).last_correction_time@,
                r,
            ) == correction_time_of(old(self).last_correction_time@, r),
            final(self).last_sync == old(self).last_sync,
            final(self).last_txn_id == old(self).last_txn_id,
    {
        let ghost old_v = self.last_correction_time@;
        let mut i: usize = 0;
        while i < self.last_correction_time.len()
            invariant
                i <= self.last_correction_time@.len(),
                self.last_correction_time@ == old_v,
                old_v == old(self).last_correction_time@,
                self.last_sync == old(self).last_sync,
                self.last_txn_id == old(self).last_txn_id,
                forall|j: int| 0 <= j < i ==> self.last_correction_time@[j].0@ != room_id@,
            decreases self.last_correction_time@.len() - i,
        {
            if str_eq(self.last_correction_time[i].0.as_str(), room_id) {
                let entry = (self.last_correction_time[i].0.clone(), time);
                self.last_correction_time.set(i, entry);
                proof {
                    lemma_time_of_update(old_v, i as int, entry, room_id@, room_id@);
                    assert forall|r: Seq<char>| r != room_id@ implies correction_time_of(
                        #[trigger] self.last_correction_time@,
                        r,
                    ) == correction_time_of(old_v, r) by {
                        lemma_time_of_update(old_v, i as int, entry, room_id@, r);
                    }
                }
                return;
            }
            i = i + 1;
        }
        let entry = (String::from_str(room_id), time);
        self.last_correction_time.push(entry);
        proof {
            lemma_time_of_push(old_v, entry, room_id@, room_id@);
            assert forall|r: Seq<char>| r != room_id@ implies correction_time_of(
                #[trigger] self.last_correction_time@,
                r,
            ) == correction_time_of(old_v, r) by {
                lemma_time_of_push(old_v, entry, room_id@, r);
            }
        }
    }
}

/// The state of the basic listener's session: its account, the last sync
/// token, the transaction counter, and when it last corrected someone (in
/// seconds since the Unix epoch).
#[derive(Debug)]
pub struct SavedSession {
    pub username: String,
    pub password: String,
    pub last_sync: Option<String>,
    pub active_room: Option<String>,
    pub last_txn_id: u64,
    pub last_correction_time: Option<u64>,
}

impl SavedSession {
    /// A session for an account that has not synced or sent anything yet.
    pub fn new(username: &str, password: &str) -> (r: SavedSession)
        ensures
            r.username@ == username@,
            r.password@ == password@,
            r.last_sync is None,
            r.active_room is None,
            r.last_txn_id == 0,
            r.last_correction_time is None,
    {
        SavedSession {
            username: String::from_str(username),
            password: String::from_str(password),
            last_sync: None,
            active_room: None,
            last_txn_id: 0,
            last_correction_time: None,
        }
    }

    pub fn get_username(&self) -> (r: String)
        ensures
            r@ == self.username@,
    {
        self.username.clone()
    }

    pub fn get_password(&self) -> (r: String)
        ensures
            r@ == self.password@,
    {
        self.password.clone()
    }

    pub fn get_last_sync(&self) -> (r: Option<String>)
        ensures
            match (r, self.last_sync) {
                (Some(a), Some(b)) => a@ == b@,
                (None, None) => true,
                _ => false,
            },
    {
        match &self.last_sync {
            Some(s) => Some(s.clone()),
            None => None,
        }
    }

    pub fn set_last_sync(&mut self, last_sync: Option<String>)
        ensures
            final(self).last_sync == last_sync,
            final(self).username == old(self).username,
            final(self).password == old(self).password,
            final(self).last_txn_id == old(self).last_txn_id,
            final(self).last_correction_time == old(self).last_correction_time,
    {
        self.last_sync = last_sync;
    }

    /// Records a correction at `time`.
    pub fn set_last_correction_time(&mut self, time: u64)
        ensures
            final(self).last_correction_time == Some(time),
            final(self).username == old(self).username,
            final(self).password == old(self).password,
            final(self).last_sync == old(self).last_sync,
            final(self).last_txn_id == old(self).last_txn_id,
    {
        self.last_correction_time = Some(time);
    }

    /// Counts one more transaction and gives its id.
    pub fn next_txn_id(&mut self) -> (r: String)
        requires
            old(self).last_txn_id < u64::MAX,
        ensures
            final(self).last_txn_id == old(self).last_txn_id + 1,
            final(self).last_correction_time == old(self).last_correction_time,
            final(self).last_sync == old(self).last_sync,
            r@ == decimal_text(final(self).last_txn_id as nat),
    {
        self.last_txn_id = self.last_txn_id + 1;
        decimal_string(self.last_txn_id)
    }

    /// Whether a correction may be made at `now`: always where none was
    /// made, and otherwise once five minutes have passed.
    pub fn correction_time_cooldown(&self, now: u64) -> (b: bool)
        ensures
            b == elapsed_allows(self.last_correction_time, now),
    {
        match self.last_correction_time {
            None => true,
            Some(t) => t <= now && now - t >= 300,
        }
    }
}

/// Changing the time of the first entry for a room changes what is found
/// for that room only.
proof fn lemma_time_of_update(v: Seq<(String, u64)>, i: int, e: (String, u64), room: Seq<char>, r: Seq<char>)
    requires
        0 <= i < v.len(),
        v[i].0@ == room,
        e.0@ == room,
        forall|j: int| 0 <= j < i ==> v[j].0@ != room,
    ensures
        r == room ==> correction_time_of(v.update(i, e), r) == Some(e.1),
        r != room ==> correction_time_of(v.update(i, e), r) == correction_time_of(v, r),
    decreases i,
{
    if i > 0 {
        assert(v.update(i, e).drop_first() =~= v.drop_first().update(i - 1, e));
        lemma_time_of_update(v.drop_first(), i - 1, e, room, r);
    } else {
        assert(v.update(i, e).drop_first() =~= v.drop_first());
    }
}

/// Adding an entry for a room that has none makes it the one found.
proof fn lemma_time_of_push(v: Seq<(String, u64)>, e: (String, u64), room: Seq<char>, r: Seq<char>)
    requires
        forall|j: int| 0 <= j < v.len() ==> v[j].0@ != room,
        e.0@ == room,
    ensures
        r == room ==> correction_time_of(v.push(e), r) == Some(e.1),
        r != room ==> correction_time_of(v.push(e), r) == correction_time_of(v, r),
    decreases v.len(),
{
    if v.len() > 0 {
        assert(v.push(e).drop_first() =~= v.drop_first().push(e));
        lemma_time_of_push(v.drop_first(), e, room, r);
    } else {
        assert(v.push(e).drop_first() =~= v);
    }
}

} // verus!
