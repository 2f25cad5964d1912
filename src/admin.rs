//! Access lists for license keys and the activity log. Keys are never kept:
//! every list is keyed by the hexadecimal SHA-256 digest of the key. Reading
//! and writing the lists in the store is left to the caller.
use vstd::prelude::*;
use vstd::string::*;
use vstd::utf8::encode_utf8;
use crate::crypto::{hex_encode, hex_of, lemma_hex_len, sha256, sha256_digest};
use crate::paths::same_text;

verus! {

/// Hexadecimal SHA-256 digest of a key's UTF-8 bytes.
pub open spec fn spec_hash_key(key: Seq<char>) -> Seq<char> {
    hex_of(sha256_digest(encode_utf8(key)))
}

/// The stored form of a key: its hexadecimal SHA-256 digest.
pub fn hash_key(key: &str) -> (r: String)
    ensures
        r@ == spec_hash_key(key@),
        r@.len() == 64,
{
    let digest = sha256(key.as_bytes());
    proof {
        lemma_hex_len(digest@);
    }
    hex_encode(digest.as_slice())
}

/// A key allowed to log in. `created_at` is in seconds since the epoch.
#[derive(Debug, Clone, PartialEq, Eq)]
pub struct WhitelistEntry {
    pub key_hash: String,
    pub user_name: String,
    pub user_id: String,
    pub created_at: i64,
    pub notes: Option<String>,
}

/// A key refused at log in, with the reason shown to its user.
#[derive(Debug, Clone, PartialEq, Eq)]
pub struct BlacklistEntry {
    pub key_hash: String,
    pub user_name: String,
    pub user_id: String,
    pub blacklisted_at: i64,
    pub reason: String,
}

/// One recorded action of a user. `timestamp` is in seconds since the epoch.
#[derive(Debug, Clone, PartialEq, Eq)]
pub struct ActivityLogEntry {
    pub key_hash: String,
    pub user_name: String,
    pub user_id: String,
    pub action: String,
    pub timestamp: i64,
    pub details: Option<String>,
}

/// Keys allowed to log in, at most one entry per key hash. An empty list
/// allows every key.
pub struct Whitelist {
    pub entries: Vec<WhitelistEntry>,
}

/// Keys refused at log in, at most one entry per key hash.
pub struct Blacklist {
    pub entries: Vec<BlacklistEntry>,
}

/// The most recent activity, oldest first, at most `ACTIVITY_LOG_LIMIT`
/// entries.
pub struct ActivityLog {
    pub entries: Vec<ActivityLogEntry>,
}

/// Most entries the activity log keeps.
pub const ACTIVITY_LOG_LIMIT: usize = 10000;

/// Outcome of checking a key against the access lists.
#[derive(Debug, Clone, PartialEq, Eq)]
pub struct KeyValidationResult {
    pub allowed: bool,
    pub reason: Option<String>,
}

/// Index of the entry of `s` whose hash is `h`, if any.
pub open spec fn wl_has(s: Seq<WhitelistEntry>, h: Seq<char>) -> bool {
    exists|i: int| 0 <= i < s.len() && #[trigger] s[i].key_hash@ == h
}

pub open spec fn bl_has(s: Seq<BlacklistEntry>, h: Seq<char>) -> bool {
    exists|i: int| 0 <= i < s.len() && #[trigger] s[i].key_hash@ == h
}

impl Whitelist {
    /// No two entries share a key hash.
    pub open spec fn wf(&self) -> bool {
        forall|i: int, j: int|
            0 <= i < j < self.entries@.len() ==> self.entries@[i].key_hash@
                != self.entries@[j].key_hash@
    }

    /// An empty list.
    pub fn new() -> (r: Whitelist)
        ensures
            r.wf(),
            r.entries@.len() == 0,
    {
        Whitelist { entries: Vec::new() }
    }

    /// Position of the entry for `key_hash`.
    pub fn position(&self, key_hash: &str) -> (r: Option<usize>)
        ensures
            r matches Some(i) ==> i < self.entries@.len() && self.entries@[i as int].key_hash@
                == key_hash@,
            r is None ==> !wl_has(self.entries@, key_hash@),
    {
        let mut i: usize = 0;
        while i < self.entries.len()
            invariant
                i <= self.entries@.len(),
                forall|k: int| 0 <= k < i ==> self.entries@[k].key_hash@ != key_hash@,
            decreases self.entries@.len() - i,
        {
            if same_text(self.entries[i].key_hash.as_str(), key_hash) {
                return Some(i);
            }
            i = i + 1;
        }
        None
    }

    /// Whether the list holds an entry for `key_hash`.
    pub fn contains(&self, key_hash: &str) -> (r: bool)
        ensures
            r == wl_has(self.entries@, key_hash@),
    {
        self.position(key_hash).is_some()
    }

    /// Adds `entry`, replacing the entry with the same key hash if there is
    /// one.
    pub fn insert(&mut self, entry: WhitelistEntry)
        requires
            old(self).wf(),
        ensures
            final(self).wf(),
            wl_has(old(self).entries@, entry.key_hash@) ==> exists|i: int|
                0 <= i < old(self).entries@.len() && old(self).entries@[i].key_hash@
                    == entry.key_hash@ && final(self).entries@ == old(self).entries@.update(
                    i,
                    entry,
                ),
            !wl_has(old(self).entries@, entry.key_hash@) ==> final(self).entries@ == old(
                self,
            ).entries@.push(entry),
    {
        let ghost e = entry;
        match self.position(entry.key_hash.as_str()) {
            Some(i) => {
                self.entries.set(i, entry);
                proof {
                    assert(self.entries@ == old(self).entries@.update(i as int, e));
                }
            },
            None => {
                self.entries.push(entry);
                proof {
                    assert forall|i: int, j: int|
                        0 <= i < j < self.entries@.len() implies self.entries@[i].key_hash@
                        != self.entries@[j].key_hash@ by {
                        if j == self.entries@.len() - 1 {
                            assert(old(self).entries@[i].key_hash@ != e.key_hash@);
                        }
                    }
                }
            },
        }
    }

    /// Removes the entry for `key_hash`, if there is one.
    pub fn remove(&mut self, key_hash: &str)
        requires
            old(self).wf(),
        ensures
            final(self).wf(),
            !wl_has(final(self).entries@, key_hash@),
            wl_has(old(self).entries@, key_hash@) ==> exists|i: int|
                0 <= i < old(self).entries@.len() && old(self).entries@[i].key_hash@ == key_hash@
                    && final(self).entries@ == old(self).entries@.remove(i),
            !wl_has(old(self).entries@, key_hash@) ==> final(self).entries@ == old(self).entries@,
    {
        match self.position(key_hash) {
            Some(i) => {
                let ghost before = self.entries@;
                self.entries.remove(i);
                proof {
                    assert(self.entries@ == before.remove(i as int));
                    assert forall|k: int| 0 <= k < self.entries@.len() implies self.entries@[k].key_hash@
                        != key_hash@ by {
                        if k < i {
                            assert(before[k].key_hash@ != before[i as int].key_hash@);
                        } else {
                            assert(before[k + 1].key_hash@ != before[i as int].key_hash@);
                        }
                    }
                    assert forall|a: int, b: int|
                        0 <= a < b < self.entries@.len() implies self.entries@[a].key_hash@
                        != self.entries@[b].key_hash@ by {
                        let a2 = if a < i { a } else { a + 1 };
                        let b2 = if b < i { b } else { b + 1 };
                        assert(before[a2].key_hash@ != before[b2].key_hash@);
                    }
                }
            },
            None => {},
        }
    }
}

impl Blacklist {
    /// No two entries share a key hash.
    pub open spec fn wf(&self) -> bool {
        forall|i: int, j: int|
            0 <= i < j < self.entries@.len() ==> self.entries@[i].key_hash@
                != self.entries@[j].key_hash@
    }

    /// An empty list.
    pub fn new() -> (r: Blacklist)
        ensures
            r.wf(),
            r.entries@.len() == 0,
    {
        Blacklist { entries: Vec::new() }
    }

    /// Position of the entry for `key_hash`.
    pub fn position(&self, key_hash: &str) -> (r: Option<usize>)
        ensures
            r matches Some(i) ==> i < self.entries@.len() && self.entries@[i as int].key_hash@
                == key_hash@,
            r is None ==> !bl_has(self.entries@, key_hash@),
    {
        let mut i: usize = 0;
        while i < self.entries.len()
            invariant
                i <= self.entries@.len(),
                forall|k: int| 0 <= k < i ==> self.entries@[k].key_hash@ != key_hash@,
            decreases self.entries@.len() - i,
        {
            if same_text(self.entries[i].key_hash.as_str(), key_hash) {
                return Some(i);
            }
            i = i + 1;
        }
        None
    }

    /// The reason recorded for `key_hash`, if the list holds it.
    pub fn reason_for(&self, key_hash: &str) -> (r: Option<String>)
        ensures
            r is None <==> !bl_has(self.entries@, key_hash@),
            r matches Some(s) ==> exists|i: int|
                0 <= i < self.entries@.len() && self.entries@[i].key_hash@ == key_hash@
                    && #[trigger] self.entries@[i].reason@ == s@,
    {
        match self.position(key_hash) {
            Some(i) => {
                let s = self.entries[i].reason.clone();
                proof {
                    assert(self.entries@[i as int].reason@ == s@);
                }
                Some(s)
            },
            None => None,
        }
    }

    /// Adds `entry`, replacing the entry with the same key hash if there is
    /// one.
    pub fn insert(&mut self, entry: BlacklistEntry)
        requires
            old(self).wf(),
        ensures
            final(self).wf(),
            bl_has(old(self).entries@, entry.key_hash@) ==> exists|i: int|
                0 <= i < old(self).entries@.len() && old(self).entries@[i].key_hash@
                    == entry.key_hash@ && final(self).entries@ == old(self).entries@.update(
                    i,
                    entry,
                ),
            !bl_has(old(self).entries@, entry.key_hash@) ==> final(self).entries@ == old(
                self,
            ).entries@.push(entry),
    {
        let ghost e = entry;
        match self.position(entry.key_hash.as_str()) {
            Some(i) => {
                self.entries.set(i, entry);
                proof {
                    assert(self.entries@ == old(self).entries@.update(i as int, e));
                }
            },
            None => {
                self.entries.push(entry);
                proof {
                    assert forall|i: int, j: int|
                        0 <= i < j < self.entries@.len() implies self.entries@[i].key_hash@
                        != self.entries@[j].key_hash@ by {
                        if j == self.entries@.len() - 1 {
                            assert(old(self).entries@[i].key_hash@ != e.key_hash@);
                        }
                    }
                }
            },
        }
    }

    /// Removes the entry for `key_hash`, if there is one.
    pub fn remove(&mut self, key_hash: &str)
        requires
            old(self).wf(),
        ensures
            final(self).wf(),
            !bl_has(final(self).entries@, key_hash@),
            bl_has(old(self).entries@, key_hash@) ==> exists|i: int|
                0 <= i < old(self).entries@.len() && old(self).entries@[i].key_hash@ == key_hash@
                    && final(self).entries@ == old(self).entries@.remove(i),
            !bl_has(old(self).entries@, key_hash@) ==> final(self).entries@ == old(self).entries@,
    {
        match self.position(key_hash) {
            Some(i) => {
                let ghost before = self.entries@;
                self.entries.remove(i);
                proof {
                    assert(self.entries@ == before.remove(i as int));
                    assert forall|k: int| 0 <= k < self.entries@.len() implies self.entries@[k].key_hash@
                        != key_hash@ by {
                        if k < i {
                            assert(before[k].key_hash@ != before[i as int].key_hash@);
                        } else {
                            assert(before[k + 1].key_hash@ != before[i as int].key_hash@);
                        }
                    }
                    assert forall|a: int, b: int|
                        0 <= a < b < self.entries@.len() implies self.entries@[a].key_hash@
                        != self.entries@[b].key_hash@ by {
                        let a2 = if a < i { a } else { a + 1 };
                        let b2 = if b < i { b } else { b + 1 };
                        assert(before[a2].key_hash@ != before[b2].key_hash@);
                    }
                }
            },
            None => {},
        }
    }
}

/// The log after recording one more entry: the entry is appended and, past
/// the limit, the oldest entries are dropped.
pub open spec fn spec_recorded(s: Seq<ActivityLogEntry>, e: ActivityLogEntry) -> Seq<
    ActivityLogEntry,
> {
    let t = s.push(e);
    if t.len() > ACTIVITY_LOG_LIMIT {
        t.skip(t.len() - ACTIVITY_LOG_LIMIT)
    } else {
        t
    }
}

impl ActivityLog {
    /// An empty log.
    pub fn new() -> (r: ActivityLog)
        ensures
            r.entries@.len() == 0,
    {
        ActivityLog { entries: Vec::new() }
    }

    /// Records `entry`, keeping only the most recent `ACTIVITY_LOG_LIMIT`
    /// entries.
    pub fn record(&mut self, entry: ActivityLogEntry)
        ensures
            final(self).entries@ == spec_recorded(old(self).entries@, entry),
            final(self).entries@.len() <= ACTIVITY_LOG_LIMIT || final(self).entries@.len()
                <= old(self).entries@.len(),
    {
        self.entries.push(entry);
        let n = self.entries.len();
        if n > ACTIVITY_LOG_LIMIT {
            let ghost t = self.entries@;
            let kept = self.entries.split_off(n - ACTIVITY_LOG_LIMIT);
            self.entries = kept;
            proof {
                assert(self.entries@ =~= t.skip(t.len() - ACTIVITY_LOG_LIMIT));
            }
        }
    }
}

pub open spec fn disabled_reason(reason: Seq<char>) -> Seq<char> {
    "Key has been disabled: "@ + reason
}

pub open spec fn unauthorized_reason() -> Seq<char> {
    "Key is not authorized. Please contact your administrator."@
}

/// The decision for a key with hash `h`: refused with the recorded reason
/// when blacklisted; else refused when the whitelist is not empty and does
/// not hold it; else allowed.
pub open spec fn spec_access(
    h: Seq<char>,
    whitelist: Seq<WhitelistEntry>,
    blacklist: Seq<BlacklistEntry>,
    allowed: bool,
    reason: Option<Seq<char>>,
) -> bool {
    if bl_has(blacklist, h) {
        !allowed && exists|i: int|
            0 <= i < blacklist.len() && blacklist[i].key_hash@ == h && reason == Some(
                disabled_reason(#[trigger] blacklist[i].reason@),
            )
    } else if whitelist.len() > 0 && !wl_has(whitelist, h) {
        !allowed && reason == Some(unauthorized_reason())
    } else {
        allowed && reason is None
    }
}

/// Checks `key` against the access lists: the blacklist first, then the
/// whitelist, which allows every key while empty.
pub fn validate_key_access(key: &str, whitelist: &Whitelist, blacklist: &Blacklist) -> (r:
    KeyValidationResult)
    ensures
        spec_access(
            spec_hash_key(key@),
            whitelist.entries@,
            blacklist.entries@,
            r.allowed,
            match r.reason {
                Some(s) => Some(s@),
                None => None,
            },
        ),
{
    let h = hash_key(key);
    if let Some(reason) = blacklist.reason_for(h.as_str()) {
        let mut text = String::from_str("Key has been disabled: ");
        text.append(reason.as_str());
        return KeyValidationResult { allowed: false, reason: Some(text) };
    }
    if whitelist.entries.len() > 0 && !whitelist.contains(h.as_str()) {
        return KeyValidationResult {
            allowed: false,
            reason: Some(
                String::from_str("Key is not authorized. Please contact your administrator."),
            ),
        };
    }
    KeyValidationResult { allowed: true, reason: None }
}

} // verus!
