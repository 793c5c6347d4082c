use passman::api::{bearer_token, is_public_route, ApiResponse, Claims, RegisterRequest};
use passman::db::{open_value, seal_value, seal_value_under, DbConfig, StorageMode};
use passman::envelope::VaultError;
use passman::envelope::{build_frame, read_frame};
use passman::text::{
    char_classes, has_repeated_chars, has_sequential_chars, is_blank, starts_with, str_eq,
    to_decimal, to_hex, to_hex_min, to_signed_decimal,
};

#[test]
fn numbers_print_in_decimal_and_hexadecimal() {
    assert_eq!(to_decimal(0), "0");
    assert_eq!(to_decimal(9), "9");
    assert_eq!(to_decimal(10), "10");
    assert_eq!(to_decimal(4_000_000_000), "4000000000");
    assert_eq!(to_decimal(u64::MAX), "18446744073709551615");
    assert_eq!(to_hex(0, 16), "0000000000000000");
    assert_eq!(to_hex(0xDEAD_BEEF, 16), "00000000deadbeef");
    assert_eq!(to_hex(u64::MAX, 16), "ffffffffffffffff");
    assert_eq!(to_hex(0x1234, 2), "34");
    assert_eq!(to_hex(7, 0), "");
    assert_eq!(to_hex_min(0), "0");
    assert_eq!(to_hex_min(0xabc), "abc");
    assert_eq!(to_hex_min(u64::MAX), "ffffffffffffffff");
}

#[test]
fn strings_compare_by_their_text() {
    assert!(str_eq("", ""));
    assert!(str_eq("delete", "delete"));
    assert!(!str_eq("delete", "deleted"));
    assert!(!str_eq("delete", "delets"));
    assert!(str_eq("ü🔐", "ü🔐"));
    assert!(!str_eq("ü", "u"));
}

#[test]
fn character_classes_and_runs_are_found() {
    let classes = char_classes("aB3!");
    assert!(classes.lowercase && classes.uppercase && classes.digits && classes.symbols);
    assert_eq!(classes.variety(), 4);
    assert_eq!(classes.charset_size(), 94);
    let letters = char_classes("abcé");
    assert!(letters.lowercase && !letters.uppercase && !letters.digits && !letters.symbols);
    assert_eq!(letters.charset_size(), 26);
    let space = char_classes(" ");
    assert!(space.symbols);
    assert_eq!(char_classes("").variety(), 0);
    assert!(has_sequential_chars("xabcx"));
    assert!(has_sequential_chars("789"));
    assert!(!has_sequential_chars("ab"));
    assert!(!has_sequential_chars("acb"));
    assert!(!has_sequential_chars("cba"));
    assert!(has_repeated_chars("baaa"));
    assert!(!has_repeated_chars("aabb"));
    assert!(!has_repeated_chars(""));
}

#[test]
fn answers_are_successes_or_errors() {
    let ok = ApiResponse::success(5u32);
    assert!(ok.success);
    assert_eq!(ok.data, Some(5));
    assert_eq!(ok.message, None);
    assert_eq!(ok.error, None);
    let noted = ApiResponse::success_with_message("data".to_string(), "done".to_string());
    assert!(noted.success);
    assert_eq!(noted.data.as_deref(), Some("data"));
    assert_eq!(noted.message.as_deref(), Some("done"));
    assert_eq!(noted.error, None);
    let failed: ApiResponse<u32> = ApiResponse::error("nope".to_string());
    assert!(!failed.success);
    assert_eq!(failed.data, None);
    assert_eq!(failed.message, None);
    assert_eq!(failed.error.as_deref(), Some("nope"));
}

#[test]
fn a_header_bears_its_token() {
    assert_eq!(bearer_token("Bearer abc.def").as_deref(), Some("abc.def"));
    assert_eq!(bearer_token("Bearer ").as_deref(), Some(""));
    assert_eq!(bearer_token("Bearer  x").as_deref(), Some(" x"));
    assert_eq!(bearer_token("Bearer"), None);
    assert_eq!(bearer_token("bearer abc"), None);
    assert_eq!(bearer_token("Basic abc"), None);
    assert_eq!(bearer_token(""), None);
    assert_eq!(bearer_token("Bearer tökén").as_deref(), Some("tökén"));
}

#[test]
fn routes_outside_the_vault_are_public() {
    for path in ["/", "/index.html", "", "/api", "/api/auth/login", "/api/health", "/api/healthz",
        "/api/generate-password", "/api/check-password-strength", "/apix/entries"] {
        assert!(is_public_route(path), "{}", path);
    }
    for path in ["/api/", "/api/entries", "/api/vault/unlock", "/api/auth", "/api/export"] {
        assert!(!is_public_route(path), "{}", path);
    }
}

#[test]
fn a_registration_needs_its_fields() {
    let request = |username: &str, email: &str, password: &str| RegisterRequest {
        username: username.to_string(),
        email: email.to_string(),
        master_password: password.to_string(),
    };
    assert!(request("alice", "a@example.com", "12345678").is_acceptable());
    assert!(!request("", "a@example.com", "12345678").is_acceptable());
    assert!(!request("alice", "", "12345678").is_acceptable());
    assert!(!request("alice", "a@example.com", "1234567").is_acceptable());
}

#[test]
fn prefixes_are_told() {
    assert!(starts_with("abc", ""));
    assert!(starts_with("abc", "ab"));
    assert!(starts_with("abc", "abc"));
    assert!(!starts_with("abc", "abcd"));
    assert!(!starts_with("abc", "b"));
    assert!(starts_with("", ""));
    assert_eq!(to_signed_decimal(0), "0");
    assert_eq!(to_signed_decimal(-1), "-1");
    assert_eq!(to_signed_decimal(i64::MIN), "-9223372036854775808");
    assert_eq!(to_signed_decimal(i64::MAX), "9223372036854775807");
}

#[test]
fn a_token_lives_for_a_day() {
    let claims = Claims::issued_at("u-1".to_string(), "alice".to_string(), 1_000);
    assert_eq!(claims.user_id, "u-1");
    assert_eq!(claims.username, "alice");
    assert_eq!(claims.iat, 1_000);
    assert_eq!(claims.exp, 87_400);
}

#[test]
fn the_store_is_configured_as_documented() {
    let config = DbConfig::default();
    assert!(!config.require_sqlcipher);
    assert_eq!(config.kdf_iterations, 256000);
    assert_eq!(config.memory_cost, 65536);
    let parameters = config.key_parameters();
    assert_eq!(parameters.memory_cost, 65536);
    assert_eq!(parameters.time_cost, 256);
    assert_eq!(parameters.parallelism, 4);
    assert_eq!(parameters.hash_length, Some(32));
    assert_eq!(config.storage_mode(true), Some(StorageMode::NativeEncrypted));
    assert_eq!(config.storage_mode(false), Some(StorageMode::ApplicationEncrypted));
    let strict = DbConfig { require_sqlcipher: true, ..config };
    assert_eq!(strict.storage_mode(true), Some(StorageMode::NativeEncrypted));
    assert_eq!(strict.storage_mode(false), None);
}

#[test]
fn a_sealed_value_opens_under_its_password() {
    let master = "test_master_password";
    let data = b"super secret data";
    let sealed = seal_value(master, data).unwrap();
    let blob = sealed.blob;
    assert_eq!(blob.len(), 32 + 24 + 255 + 16);
    assert!(blob.len() > data.len());
    assert_ne!(&blob[32..32 + data.len()], data);
    let opened = open_value(master, &blob);
    assert_eq!(opened.plaintext.unwrap(), data);
    for warning in sealed.warning.iter().chain(opened.warning.iter()) {
        assert!(warning.ends_with("ms (recommended: >100ms)"));
    }
}

#[test]
fn a_value_is_sealed_under_the_salt_given() {
    let sealed = seal_value_under("test_master_password", &[9u8; 32], b"secret").unwrap();
    assert_eq!(sealed.blob[..32], [9u8; 32]);
    assert_eq!(sealed.blob.len(), 32 + 24 + 255 + 16);
    assert_eq!(open_value("test_master_password", &sealed.blob).plaintext.unwrap(), b"secret");
}

#[test]
fn a_salt_of_another_length_is_refused() {
    for len in [0usize, 16, 31, 33] {
        assert!(matches!(
            seal_value_under("test_master_password", &vec![9u8; len], b"secret"),
            Err(VaultError::InvalidInput(_))
        ));
    }
}

#[test]
fn a_sealed_value_stays_shut_otherwise() {
    let blob = seal_value("test_master_password", b"another secret").unwrap().blob;
    assert_eq!(open_value("another_password", &blob).plaintext, None);
    let short = open_value("test_master_password", &blob[..32]);
    assert_eq!(short.plaintext, None);
    assert_eq!(short.warning, None);
    assert_eq!(open_value("test_master_password", &[]).plaintext, None);
}

#[test]
fn a_frame_is_compact_json() {
    let frame = build_frame(&[0, 7, 10, 99, 100, 255], b"[{\"service\":\"github\"}]");
    assert_eq!(
        String::from_utf8(frame.clone()).unwrap(),
        "{\"salt\":[0,7,10,99,100,255],\"entries\":[{\"service\":\"github\"}]}"
    );
    let value: serde_json::Value = serde_json::from_slice(&frame).unwrap();
    let salt: Vec<u64> = value["salt"].as_array().unwrap().iter().map(|n| n.as_u64().unwrap()).collect();
    assert_eq!(salt, vec![0, 7, 10, 99, 100, 255]);
    assert_eq!(value["entries"][0]["service"].as_str(), Some("github"));
    let (salt, entries) = read_frame(&frame).unwrap();
    assert_eq!(salt, vec![0, 7, 10, 99, 100, 255]);
    assert_eq!(entries, b"[{\"service\":\"github\"}]");
    assert_eq!(build_frame(&[], b"[]"), b"{\"salt\":[],\"entries\":[]}");
    assert_eq!(read_frame(b"{\"salt\":[],\"entries\":[]}").unwrap(), (vec![], b"[]".to_vec()));
}

#[test]
fn what_is_no_frame_does_not_read() {
    for bytes in [
        &b""[..],
        b"[]",
        b"{}",
        b"{\"salt\":[1,2]}",
        b"{\"salt\":[1,2],\"entries\":",
        b"{\"salt\":[1,2],\"entries\":[]",
        b"{\"salt\":[01],\"entries\":[]}",
        b"{\"salt\":[256],\"entries\":[]}",
        b"{\"salt\":[1000],\"entries\":[]}",
        b"{\"salt\":[1,],\"entries\":[]}",
        b"{\"salt\":[,1],\"entries\":[]}",
        b"{\"salt\":[1 ,2],\"entries\":[]}",
        b"{\"salt\":[-1],\"entries\":[]}",
        b"{\"salt\":[1,2],\"items\":[]}",
        b"{\"entries\":[],\"salt\":[1]}",
        b"{\"salt\":[1,2",
    ] {
        assert_eq!(read_frame(bytes), None, "{}", String::from_utf8_lossy(bytes));
    }
    assert_eq!(read_frame(b"{\"salt\":[255,0],\"entries\":x}").unwrap(), (vec![255, 0], b"x".to_vec()));
    assert_eq!(read_frame(b"{\"salt\":[1,2],\"entries\":}").unwrap(), (vec![1, 2], vec![]));
}

#[test]
fn a_text_of_white_space_alone_is_blank() {
    for text in ["", " ", "\t\n\r ", "\u{a0}\u{2003}", "\u{b}\u{c}"] {
        assert!(is_blank(text), "{:?}", text);
        assert!(text.trim().is_empty());
    }
    for text in ["a", " a ", "\n.\n", "\u{200b}", "_"] {
        assert!(!is_blank(text), "{:?}", text);
        assert!(!text.trim().is_empty());
    }
}
