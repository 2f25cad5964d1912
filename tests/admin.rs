use sync2bucket::admin::{
    hash_key, validate_key_access, ActivityLog, ActivityLogEntry, Blacklist, BlacklistEntry, Whitelist,
    WhitelistEntry, ACTIVITY_LOG_LIMIT,
};

fn white(key: &str, name: &str) -> WhitelistEntry {
    WhitelistEntry {
        key_hash: hash_key(key),
        user_name: name.to_string(),
        user_id: "u_1".to_string(),
        created_at: 0,
        notes: None,
    }
}

fn black(key: &str, reason: &str) -> BlacklistEntry {
    BlacklistEntry {
        key_hash: hash_key(key),
        user_name: "n".to_string(),
        user_id: "u_2".to_string(),
        blacklisted_at: 0,
        reason: reason.to_string(),
    }
}

#[test]
fn key_hashes_are_sha256_hex() {
    assert_eq!(hash_key("abc"), "ba7816bf8f01cfea414140de5dae2223b00361a396177a9cb410ff61f20015ad");
    assert_eq!(
        hash_key("my-license"),
        "78f7d55042c67bbb8f7bca7634b2ef1ed392b92be9438fa81d6d0ea5d55ac4e2"
    );
}

#[test]
fn whitelist_insert_replace_remove() {
    let mut w = Whitelist::new();
    w.insert(white("k1", "a"));
    w.insert(white("k2", "b"));
    w.insert(white("k1", "c"));
    assert_eq!(w.entries.len(), 2);
    assert_eq!(w.entries[0].user_name, "c");
    assert!(w.contains(&hash_key("k2")));
    w.remove(&hash_key("k2"));
    assert!(!w.contains(&hash_key("k2")));
    assert_eq!(w.entries.len(), 1);
    w.remove(&hash_key("absent"));
    assert_eq!(w.entries.len(), 1);
}

#[test]
fn blacklist_reasons() {
    let mut b = Blacklist::new();
    b.insert(black("bad", "abuse"));
    assert_eq!(b.reason_for(&hash_key("bad")), Some("abuse".to_string()));
    assert_eq!(b.reason_for(&hash_key("good")), None);
    b.remove(&hash_key("bad"));
    assert_eq!(b.reason_for(&hash_key("bad")), None);
}

#[test]
fn access_decisions() {
    let mut w = Whitelist::new();
    let mut b = Blacklist::new();
    let open = validate_key_access("any", &w, &b);
    assert!(open.allowed);
    assert_eq!(open.reason, None);

    w.insert(white("member", "m"));
    assert!(validate_key_access("member", &w, &b).allowed);
    let out = validate_key_access("stranger", &w, &b);
    assert!(!out.allowed);
    assert_eq!(
        out.reason,
        Some("Key is not authorized. Please contact your administrator.".to_string())
    );

    b.insert(black("member", "expired contract"));
    let banned = validate_key_access("member", &w, &b);
    assert!(!banned.allowed);
    assert_eq!(banned.reason, Some("Key has been disabled: expired contract".to_string()));
}

#[test]
fn activity_log_keeps_most_recent() {
    let mut log = ActivityLog::new();
    for i in 0..(ACTIVITY_LOG_LIMIT + 1) {
        log.record(ActivityLogEntry {
            key_hash: String::new(),
            user_name: String::new(),
            user_id: String::new(),
            action: "login".to_string(),
            timestamp: i as i64,
            details: None,
        });
    }
    assert_eq!(log.entries.len(), ACTIVITY_LOG_LIMIT);
    assert_eq!(log.entries[0].timestamp, 1);
    assert_eq!(log.entries[ACTIVITY_LOG_LIMIT - 1].timestamp, ACTIVITY_LOG_LIMIT as i64);
}

#[test]
fn empty_key_hash() {
    let h = hash_key("");
    assert_eq!(h, "e3b0c44298fc1c149afbf4c8996fb92427ae41e4649b934ca495991b7852b855");
    assert_eq!(h.len(), 64);
}
