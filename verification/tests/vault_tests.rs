use passman::crypto::{decrypt, derive_key, derive_key_with_config, encrypt, Argon2Config};
use passman::entry::Entry;
use passman::envelope::{Format, VaultError};
use passman::security::{AuditAction, SecurityEventType};
use passman::vault::{Exported, Vault, VaultStats};

const SECOND: u128 = 1_000_000_000;

fn light() -> Argon2Config {
    Argon2Config { memory_cost: 64, time_cost: 1, parallelism: 1, hash_length: Some(32) }
}
const LEGACY_SALT: &[u8] = b"UniqueAppSaltV1Secure2024";

// The keys that "correct-horse-battery" derives with the default cost, under
// the placeholder salt and under the legacy salt.
const PLACEHOLDER_KEY: [u8; 32] = [
    189, 230, 63, 136, 145, 65, 17, 30, 191, 104, 205, 17, 159, 207, 41, 132, 120, 142, 11, 89, 181,
    104, 201, 62, 1, 116, 87, 11, 35, 203, 166, 248,
];
const LEGACY_KEY: [u8; 32] = [
    135, 111, 43, 22, 231, 88, 218, 115, 238, 201, 53, 99, 22, 138, 43, 181, 189, 89, 151, 156, 18,
    247, 232, 157, 19, 222, 240, 136, 207, 44, 109, 224,
];

fn entries_json(entries: &[Entry]) -> Vec<u8> {
    let list: Vec<serde_json::Value> = entries
        .iter()
        .map(|entry| {
            let mut fields = serde_json::Map::new();
            fields.insert("id".to_string(), serde_json::Value::String(entry.id.clone()));
            fields.insert("service".to_string(), serde_json::Value::String(entry.service.clone()));
            fields.insert("username".to_string(), serde_json::Value::String(entry.username.clone()));
            fields.insert("password".to_string(), serde_json::Value::String(entry.password.clone()));
            serde_json::Value::Object(fields)
        })
        .collect();
    serde_json::to_vec(&serde_json::Value::Array(list)).unwrap()
}

fn entries_from(json: &[u8]) -> Option<Vec<(String, String, String)>> {
    let value: serde_json::Value = serde_json::from_slice(json).ok()?;
    let list = value.as_array()?;
    let mut entries = Vec::new();
    for item in list {
        entries.push((
            item.get("service")?.as_str()?.to_string(),
            item.get("username")?.as_str()?.to_string(),
            item.get("password")?.as_str()?.to_string(),
        ));
    }
    Some(entries)
}

fn vault_with(entries: &[(&str, &str, &str)]) -> Vault {
    let mut vault = Vault::new(900);
    for (service, username, password) in entries {
        vault.add_entry(service.to_string(), username.to_string(), password.to_string()).unwrap();
    }
    vault
}

fn messages(vault: &Vault) -> Vec<String> {
    vault.audit.as_ref().unwrap().events().iter().map(|e| e.message.clone()).collect()
}

#[test]
fn a_new_vault_is_empty_and_unlocked() {
    let mut vault = Vault::new(900);
    assert!(vault.entries.is_empty());
    assert!(vault.vault_salt.is_none());
    assert!(vault.pending.is_empty());
    assert_eq!(vault.audit.as_ref().unwrap().len(), 0);
    assert!(!vault.check_and_handle_lock());
    let left = vault.get_lock_status().unwrap();
    assert!(left <= 900 * SECOND && left > 890 * SECOND);
    assert!(vault.lock_now() < 60 * SECOND);
    vault.lock = None;
    assert_eq!(vault.lock_now(), 0);
    assert_eq!(vault.get_lock_status(), None);
    assert!(!vault.check_and_handle_lock_at(u64::MAX as u128, 0));
}

#[test]
fn adding_an_entry_records_it() {
    let mut vault = Vault::new(900);
    vault.add_entry("  github ".to_string(), "alice".to_string(), "p@ss".to_string()).unwrap();
    assert_eq!(vault.entries.len(), 1);
    assert_eq!(vault.entries[0].service, "github");
    assert_eq!(vault.entries[0].username, "alice");
    assert_eq!(vault.entries[0].password, "p@ss");
    assert_eq!(vault.entries[0].id.len(), 36);
    assert_eq!(messages(&vault), vec!["Entry added for service:   github "]);
    assert_eq!(vault.audit.as_ref().unwrap().events()[0].event_type, SecurityEventType::VaultOperation);
}

#[test]
fn an_entry_needs_a_service_and_a_user() {
    let mut vault = Vault::new(900);
    for (service, username) in [("", "alice"), ("github", ""), ("  \t", "alice"), ("github", " \n")] {
        match vault.add_entry(service.to_string(), username.to_string(), "p".to_string()) {
            Err(VaultError::InvalidInput(message)) => assert_eq!(message, "Service and username cannot be empty!"),
            other => panic!("unexpected {:?}", other),
        }
    }
    assert!(vault.entries.is_empty());
    assert!(messages(&vault).is_empty());
    vault.add_entry("github".to_string(), "alice".to_string(), "".to_string()).unwrap();
    assert_eq!(vault.entries.len(), 1);
}

#[test]
fn a_locked_vault_refuses_and_records_it() {
    let mut vault = vault_with(&[("github", "alice", "p@ss")]);
    let idle = 901 * SECOND;
    let result = vault.add_entry_at(
        "id".to_string(),
        "gitlab".to_string(),
        "bob".to_string(),
        "pw".to_string(),
        idle,
        5,
    );
    assert!(matches!(result, Err(VaultError::VaultLocked)));
    assert_eq!(vault.entries.len(), 1);
    assert!(vault.get_entries_at(idle, 6).is_none());
    assert_eq!(vault.remove_entries_at("git", idle, 7), 0);
    assert_eq!(vault.entries.len(), 1);
    assert!(vault.check_and_handle_lock_at(idle, 8));
    let logged = messages(&vault);
    assert_eq!(logged.len(), 5);
    for message in &logged[1..] {
        assert_eq!(message, "Vault auto-locked due to inactivity timeout");
    }
}

#[test]
fn a_locked_out_vault_refuses_although_it_was_just_used() {
    let mut vault = vault_with(&[("github", "alice", "p@ss")]);
    for _ in 0..5 {
        vault.lock.as_mut().unwrap().record_failed_attempt();
    }
    assert!(vault.check_and_handle_lock());
    assert!(vault.get_entries().is_none());
    assert!(matches!(
        vault.add_entry("s".to_string(), "u".to_string(), "p".to_string()),
        Err(VaultError::LockedOut)
    ));
    assert_eq!(vault.remove_entries("github"), 0);
    assert_eq!(vault.entries.len(), 1);
    assert!(matches!(vault.get_vault_stats(), Err(VaultError::LockedOut)));
    assert!(matches!(vault.export_entries("csv"), Err(VaultError::LockedOut)));
}

#[test]
fn reading_restarts_the_idle_timer() {
    let mut vault = Vault::new(900);
    assert!(vault.get_entries_at(800 * SECOND, 0).is_some());
    assert!(vault.get_entries_at(1600 * SECOND, 1).is_some());
    assert!(vault.get_entries_at(2501 * SECOND, 2).is_none());
    vault.add_entry("github".to_string(), "alice".to_string(), "p@ss".to_string()).unwrap();
    assert_eq!(vault.get_entries().unwrap().len(), 1);
    assert_eq!(vault.get_entries().unwrap()[0].service, "github");
}

#[test]
fn entries_are_removed_by_a_part_of_their_service() {
    let mut vault = vault_with(&[
        ("GitHub", "alice", "1"),
        ("gitlab", "bob", "2"),
        ("Mail", "carol", "3"),
        ("digits", "dave", "4"),
    ]);
    assert_eq!(vault.remove_entries("nothing"), 0);
    assert_eq!(vault.entries.len(), 4);
    assert_eq!(vault.remove_entries("GIT"), 3);
    assert_eq!(vault.entries.len(), 1);
    assert_eq!(vault.entries[0].service, "Mail");
    assert_eq!(messages(&vault).last().unwrap(), "Removed 3 entries matching 'GIT'");
    assert_eq!(vault.remove_entries(""), 1);
    assert!(vault.entries.is_empty());
}

#[test]
fn removing_restarts_the_idle_timer_even_where_nothing_matched() {
    let mut vault = vault_with(&[("github", "alice", "1")]);
    assert_eq!(vault.remove_entries_at("nothing", 800 * SECOND, 0), 0);
    assert!(vault.get_entries_at(1600 * SECOND, 1).is_some());
    assert_eq!(messages(&vault).len(), 1);
    let mut idle = vault_with(&[("github", "alice", "1")]);
    assert!(idle.get_entries_at(1600 * SECOND, 1).is_none());
}

#[test]
fn an_identifier_is_taken_once() {
    let mut vault = Vault::new(900);
    vault
        .add_entry_at("id-1".to_string(), "github".to_string(), "alice".to_string(), "1".to_string(), 0, 0)
        .unwrap();
    match vault.add_entry_at("id-1".to_string(), "mail".to_string(), "bob".to_string(), "2".to_string(), 0, 1) {
        Err(VaultError::InvalidInput(message)) => assert_eq!(message, "Entry identifier already in use"),
        other => panic!("unexpected {:?}", other),
    }
    assert_eq!(vault.entries.len(), 1);
    assert_eq!(messages(&vault).len(), 1);
    vault
        .add_entry_at("id-2".to_string(), "mail".to_string(), "bob".to_string(), "2".to_string(), 0, 2)
        .unwrap();
    assert_eq!(vault.entries.len(), 2);
    // A blank service is refused before the identifier is looked at.
    match vault.add_entry_at("id-1".to_string(), " ".to_string(), "bob".to_string(), "2".to_string(), 0, 3) {
        Err(VaultError::InvalidInput(message)) => assert_eq!(message, "Service and username cannot be empty!"),
        other => panic!("unexpected {:?}", other),
    }
    let ids: Vec<&str> = vault.entries.iter().map(|e| e.id.as_str()).collect();
    assert_eq!(ids, vec!["id-1", "id-2"]);
}

#[test]
fn figures_count_services_once() {
    let mut vault = vault_with(&[("github", "alice", "1"), ("mail", "bob", "2"), ("github", "carol", "3")]);
    assert_eq!(
        vault.get_vault_stats().unwrap(),
        VaultStats { total_entries: 3, unique_services: 2, has_duplicates: true }
    );
    let mut distinct = vault_with(&[("github", "alice", "1"), ("GitHub", "bob", "2")]);
    assert_eq!(
        distinct.get_vault_stats().unwrap(),
        VaultStats { total_entries: 2, unique_services: 2, has_duplicates: false }
    );
    assert_eq!(
        Vault::new(1).get_vault_stats_at(0, 0).unwrap(),
        VaultStats { total_entries: 0, unique_services: 0, has_duplicates: false }
    );
    assert!(matches!(vault.get_vault_stats_at(901 * SECOND, 0), Err(VaultError::VaultLocked)));
    assert!(vault.get_vault_stats_at(800 * SECOND, 0).is_ok());
    assert!(vault.get_vault_stats_at(1600 * SECOND, 0).is_ok());
}

#[test]
fn the_csv_export_escapes_commas() {
    let mut vault = vault_with(&[("git,hub", "alice", "p,a,ss"), ("mail", "b\\ob", "")]);
    let expected = "Service,Username,Password\ngit\\,hub,alice,p\\,a\\,ss\nmail,b\\ob,\n";
    match vault.export_entries("CSV") {
        Ok(Exported::Csv(csv)) => assert_eq!(csv, expected),
        _ => panic!("csv expected"),
    }
    assert!(matches!(vault.export_entries("Json"), Ok(Exported::Json)));
    match vault.export_entries("xml") {
        Err(VaultError::InvalidInput(message)) => assert_eq!(message, "Unsupported format. Use 'json' or 'csv'"),
        _ => panic!("error expected"),
    }
    match Vault::new(1).export_entries_at("csv", 0, 0) {
        Ok(Exported::Csv(csv)) => assert_eq!(csv, "Service,Username,Password\n"),
        _ => panic!("csv expected"),
    }
    assert!(matches!(vault.export_entries_at("csv", 901 * SECOND, 0), Err(VaultError::VaultLocked)));
}

#[test]
fn alerts_wait_to_be_taken() {
    let mut vault = Vault::new(900);
    for i in 0..19 {
        assert!(vault.get_entries_at(0, i).is_some());
        vault.add_entry_at(format!("id{}", i), "s".to_string(), "u".to_string(), "p".to_string(), 0, 0).unwrap();
    }
    assert!(vault.pending.is_empty());
    vault.add_entry_at("last".to_string(), "s".to_string(), "u".to_string(), "p".to_string(), 0, 0).unwrap();
    assert_eq!(vault.pending.len(), 1);
    let actions = vault.take_pending();
    assert!(matches!(&actions[0], AuditAction::Alert(message) if message.starts_with("THREAT DETECTED: ")));
    assert!(vault.pending.is_empty());
    assert!(vault.take_pending().is_empty());
}

#[test]
fn a_saved_vault_reopens_under_its_password() {
    let password = "correct-horse-battery";
    let mut vault = vault_with(&[("github", "alice", "p@ss")]);
    vault.vault_salt = Some(vec![0u8; 32]);
    let json = entries_json(&vault.entries);
    let blob = vault.save_with(password, &json, &light()).unwrap();
    assert_eq!(vault.vault_salt, Some(vec![0u8; 32]));
    vault.record_saved();
    assert_eq!(messages(&vault).last().unwrap(), "Vault saved to disk securely");

    let opened = Vault::load_with(password, &blob, &light()).unwrap();
    assert_eq!(opened.format, Format::Current);
    assert_eq!(opened.salt, vec![0u8; 32]);
    assert_eq!(opened.entries, json);
    assert_eq!(
        entries_from(&opened.entries).unwrap(),
        vec![("github".to_string(), "alice".to_string(), "p@ss".to_string())]
    );
    // So light a derivation is too fast: it calls for a warning, here and on saving.
    assert_eq!(opened.warnings.len(), 1);
    assert!(opened.warnings[0].ends_with("ms (recommended: >100ms)"));
    match vault.take_pending().last() {
        Some(AuditAction::Warn(text)) => assert!(text.starts_with("Key derivation completed in ")),
        other => panic!("unexpected {:?}", other),
    }

    match Vault::load_with("wrong-horse-battery", &blob, &light()) {
        Err(VaultError::InvalidData(message)) => assert_eq!(
            message,
            "Failed to decrypt vault - invalid master password or corrupted file"
        ),
        other => panic!("unexpected {:?}", other),
    }
    let heavier = Argon2Config { time_cost: 2, ..light() };
    assert!(matches!(Vault::load_with(password, &blob, &heavier), Err(VaultError::InvalidData(_))));
}

#[test]
fn a_vault_is_saved_with_the_default_cost() {
    let password = "correct-horse-battery";
    let mut vault = vault_with(&[("github", "alice", "p@ss")]);
    vault.vault_salt = Some(vec![0u8; 32]);
    let json = entries_json(&vault.entries);
    let blob = vault.save(password, &json).unwrap();
    let plaintext = decrypt(&PLACEHOLDER_KEY, &blob).unwrap();
    assert_eq!(passman::envelope::read_frame(&plaintext).unwrap(), (vec![0u8; 32], json));
}

#[test]
fn a_vault_reopens_with_the_default_cost() {
    let json = b"[{\"service\":\"github\",\"username\":\"alice\",\"password\":\"p@ss\"}]";
    let frame = passman::envelope::build_frame(&[0u8; 32], json);
    let blob = encrypt(&PLACEHOLDER_KEY, &frame).unwrap();
    let opened = Vault::load("correct-horse-battery", &blob).unwrap();
    assert_eq!(opened.format, Format::Current);
    assert_eq!(opened.salt, vec![0u8; 32]);
    assert_eq!(opened.entries, json);
    assert_eq!(
        entries_from(&opened.entries).unwrap(),
        vec![("github".to_string(), "alice".to_string(), "p@ss".to_string())]
    );
}

#[test]
fn a_wrong_password_fails_without_telling_why() {
    let blob = encrypt(&PLACEHOLDER_KEY, b"{\"salt\":[],\"entries\":[]}").unwrap();
    match Vault::load("wrong-horse-battery", &blob) {
        Err(VaultError::InvalidData(message)) => assert_eq!(
            message,
            "Failed to decrypt vault - invalid master password or corrupted file"
        ),
        other => panic!("unexpected {:?}", other),
    }
}

#[test]
fn a_corrupted_file_fails_like_a_wrong_password() {
    let mut vault = Vault::new(900);
    vault.vault_salt = Some(vec![0u8; 32]);
    let blob = vault.save_with("correct-horse-battery", b"[]", &light()).unwrap();
    let mut truncated = blob.clone();
    truncated.pop();
    let mut flipped = blob.clone();
    flipped[30] ^= 0x40;
    for bytes in [&b""[..], &b"short"[..], &[0u8; 400][..], &truncated[..], &flipped[..]] {
        match Vault::load_with("correct-horse-battery", bytes, &light()) {
            Err(VaultError::InvalidData(message)) => assert_eq!(
                message,
                "Failed to decrypt vault - invalid master password or corrupted file"
            ),
            other => panic!("unexpected {:?}", other),
        }
    }
    assert!(matches!(Vault::load_legacy("pw", b"too short"), Err(VaultError::InvalidData(_))));
    assert!(Vault::load_with("correct-horse-battery", &blob, &light()).is_ok());
}

#[test]
fn a_frame_with_a_short_salt_does_not_open() {
    let password = "correct-horse-battery";
    // Sealed under the placeholder salt, but naming a salt of four bytes.
    let key = derive_key_with_config(password, &[0u8; 32], &light());
    let blob = encrypt(&key, b"{\"salt\":[1,2,3,4],\"entries\":[]}").unwrap();
    assert!(matches!(Vault::load_with(password, &blob, &light()), Err(VaultError::InvalidData(_))));
    // What is sealed under the placeholder salt and is no frame does not open either.
    let other = encrypt(&key, b"{\"entries\":[]}").unwrap();
    assert!(matches!(Vault::load_with(password, &other, &light()), Err(VaultError::InvalidData(_))));
}

#[test]
fn a_legacy_file_loads() {
    let password = "correct-horse-battery";
    let legacy = vault_with(&[("legacy", "alice", "old")]);
    let json = entries_json(&legacy.entries);
    let key = derive_key_with_config(password, LEGACY_SALT, &light());
    let blob = encrypt(&key, &json).unwrap();

    let opened = Vault::load_with(password, &blob, &light()).unwrap();
    assert_eq!(opened.format, Format::Legacy);
    assert_eq!(opened.salt, LEGACY_SALT);
    assert_eq!(
        entries_from(&opened.entries).unwrap(),
        vec![("legacy".to_string(), "alice".to_string(), "old".to_string())]
    );
    let again = Vault::load_legacy_with(password, &blob, &light()).unwrap();
    assert_eq!(again.format, Format::Legacy);
    assert_eq!(again.entries, json);
    assert!(matches!(
        Vault::load_with("another-password", &blob, &light()),
        Err(VaultError::InvalidData(_))
    ));
}

#[test]
fn a_legacy_file_loads_with_the_default_cost() {
    let password = "correct-horse-battery";
    assert_eq!(derive_key(password, LEGACY_SALT), LEGACY_KEY);
    let blob = encrypt(&LEGACY_KEY, b"[]").unwrap();
    let opened = Vault::load_legacy(password, &blob).unwrap();
    assert_eq!(opened.format, Format::Legacy);
    assert_eq!(opened.salt, LEGACY_SALT);
    assert_eq!(opened.entries, b"[]");
}

#[test]
fn a_saved_legacy_vault_is_upgraded() {
    let password = "correct-horse-battery";
    let entry = Entry::new("legacy".to_string(), "alice".to_string(), "old".to_string()).unwrap();
    let mut vault = Vault::loaded(vec![entry], LEGACY_SALT.to_vec());
    assert_eq!(messages(&vault), vec!["Vault loaded from disk successfully"]);
    let json = entries_json(&vault.entries);
    let blob = vault.save_with(password, &json, &light()).unwrap();
    assert_eq!(vault.vault_salt.as_deref(), Some(LEGACY_SALT));
    assert!(matches!(
        Vault::load_legacy_with(password, &blob, &light()),
        Err(VaultError::InvalidData(_))
    ));
    // What the legacy key opens is a frame now, not a flat list of entries.
    let key = derive_key_with_config(password, LEGACY_SALT, &light());
    let plaintext = decrypt(&key, &blob).unwrap();
    assert_eq!(plaintext[0], b'{');
    assert!(entries_from(&plaintext).is_none());
    let (salt, entries) = passman::envelope::read_frame(&plaintext).unwrap();
    assert_eq!(salt, LEGACY_SALT);
    assert_eq!(entries, json);
}

#[test]
fn a_first_save_gives_the_vault_a_salt_that_stays() {
    let mut vault = vault_with(&[("github", "alice", "p@ss")]);
    assert!(vault.vault_salt.is_none());
    let first = vault.save_with("pw", b"[]", &light()).unwrap();
    let salt = vault.vault_salt.clone().unwrap();
    assert_eq!(salt.len(), 32);
    assert_ne!(salt, vec![0u8; 32]);
    let second = vault.save_with("pw", b"[]", &light()).unwrap();
    assert_eq!(vault.vault_salt, Some(salt.clone()));
    assert_ne!(first, second);
    let key = derive_key_with_config("pw", &salt, &light());
    let plaintext = decrypt(&key, &second).unwrap();
    assert_eq!(passman::envelope::read_frame(&plaintext).unwrap(), (salt, b"[]".to_vec()));
    assert_eq!(vault.entries.len(), 1);
}

#[test]
fn a_vault_under_a_salt_of_its_own_is_sealed_under_that_salt_alone() {
    let mut vault = Vault::new(900);
    vault.vault_salt = Some(vec![7u8; 32]);
    let blob = vault.save_with("pw", b"[]", &light()).unwrap();
    // The probe under the placeholder salt does not open it, nor does the legacy salt.
    assert!(matches!(Vault::load_with("pw", &blob, &light()), Err(VaultError::InvalidData(_))));
    let key = derive_key_with_config("pw", &[7u8; 32], &light());
    assert_eq!(decrypt(&key, &blob).unwrap(), b"{\"salt\":[7,7,7,7,7,7,7,7,7,7,7,7,7,7,7,7,7,7,7,7,7,7,7,7,7,7,7,7,7,7,7,7],\"entries\":[]}");
}

#[test]
fn what_cannot_be_sealed_is_refused() {
    let mut vault = Vault::new(900);
    vault.vault_salt = Some(vec![1u8; 15]);
    assert!(matches!(vault.save("pw", b"[]"), Err(VaultError::InvalidInput(_))));
    assert_eq!(vault.vault_salt, Some(vec![1u8; 15]));
    vault.vault_salt = Some(vec![1u8; 16]);
    let invalid = Argon2Config { memory_cost: 7, time_cost: 1, parallelism: 1, hash_length: None };
    assert!(matches!(vault.save_with("pw", b"[]", &invalid), Err(VaultError::InvalidInput(_))));
    assert!(vault.save_with("pw", b"[]", &light()).is_ok());
}

#[test]
fn a_vault_for_a_missing_file_is_new() {
    let vault = Vault::created();
    assert!(vault.entries.is_empty());
    assert!(vault.vault_salt.is_none());
    assert_eq!(messages(&vault), vec!["New vault created"]);
}
