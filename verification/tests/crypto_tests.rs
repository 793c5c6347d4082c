use passman::crypto::{
    _constant_time_eq_allow, add_secure_padding, benchmark_key_derivation, constant_time_eq, decrypt, derivation_too_fast,
    derivation_warning, derive_key, derive_key_timed, derive_key_with_config, encrypt, encrypt_with, estimate_password_strength,
    generate_password, generate_salt, get_password_strength_indicator, pad_with_filler,
    remove_secure_padding, strength_from, u32_from_le_bytes, verify_password, wipe_key,
    Argon2Config, CryptoError,
};
use passman::text::CharClasses;

fn light_config() -> Argon2Config {
    Argon2Config { memory_cost: 64, time_cost: 1, parallelism: 1, hash_length: Some(32) }
}

#[test]
fn test_encrypt_decrypt_roundtrip() {
    let key = [42u8; 32];
    let data = b"Hello, world!";

    let encrypted = encrypt(&key, data).unwrap();
    let decrypted = decrypt(&key, &encrypted).unwrap();

    assert_eq!(data.as_slice(), decrypted.as_slice());
}

#[test]
fn test_padding_roundtrip() {
    let data = b"test data";
    let padded = add_secure_padding(data).unwrap();
    let unpadded = remove_secure_padding(&padded).unwrap();

    assert_eq!(data.as_slice(), unpadded.as_slice());
}

#[test]
fn test_password_generation() {
    let password = generate_password(16, true).unwrap();
    assert_eq!(password.len(), 16);

    let strength = estimate_password_strength(&password);
    assert!(strength.score > 50); // Should be reasonably strong
}

#[test]
fn test_constant_time_comparison() {
    let a = b"hello";
    let b = b"hello";
    let c = b"world";

    assert!(constant_time_eq(a, b));
    assert!(!constant_time_eq(a, c));
}

#[test]
fn constant_time_eq_tells_lengths_and_single_bytes_apart() {
    assert!(constant_time_eq(b"", b""));
    assert!(!constant_time_eq(b"abc", b"abcd"));
    assert!(!constant_time_eq(b"abcd", b"abc"));
    assert!(!constant_time_eq(b"abcd", b"abce"));
    assert!(!constant_time_eq(b"xbcd", b"abcd"));
    assert!(_constant_time_eq_allow(b"abcd", b"abcd"));
    assert!(!_constant_time_eq_allow(b"abcd", b"abcf"));
}

#[test]
fn round_trip_holds_for_messages_around_the_block_size() {
    let key = [7u8; 32];
    for len in [0usize, 1, 13, 254, 255, 256, 509, 510, 511, 1000] {
        let message: Vec<u8> = (0..len).map(|i| (i % 251) as u8).collect();
        let encrypted = encrypt(&key, &message).unwrap();
        let padded = (len / 255 + 1) * 255;
        assert_eq!(encrypted.len(), 24 + padded + 16);
        assert_eq!(decrypt(&key, &encrypted).unwrap(), message);
    }
}

#[test]
fn encrypting_twice_gives_different_ciphertexts() {
    let key = [9u8; 32];
    let first = encrypt(&key, b"same plaintext").unwrap();
    let second = encrypt(&key, b"same plaintext").unwrap();
    assert_ne!(first, second);
    assert_ne!(first[..24], second[..24]);
}

#[test]
fn padding_round_trips_at_the_block_boundaries() {
    for (len, padded_len) in [(0usize, 255usize), (254, 255), (255, 510), (256, 510), (1000, 1020)] {
        let message: Vec<u8> = (0..len).map(|i| (i % 7) as u8).collect();
        let padded = add_secure_padding(&message).unwrap();
        assert_eq!(padded.len(), padded_len);
        assert_eq!(padded[..len], message[..]);
        assert_eq!(*padded.last().unwrap() as usize, padded_len - len);
        assert_eq!(remove_secure_padding(&padded).unwrap(), message);
    }
}

#[test]
fn padding_with_a_given_filler_is_exact() {
    let padded = pad_with_filler(&[1, 2, 3], &[9u8; 251]);
    let mut expected = vec![1u8, 2, 3];
    expected.extend_from_slice(&[9u8; 251]);
    expected.push(252);
    assert_eq!(padded, expected);
    let aligned = pad_with_filler(&[5u8; 255], &[0u8; 254]);
    assert_eq!(aligned.len(), 510);
    assert_eq!(aligned[509], 255);
}

#[test]
fn removing_padding_rejects_what_is_no_padding() {
    match remove_secure_padding(&[]) {
        Err(CryptoError::InvalidPadding(message)) => assert_eq!(message, "Empty data"),
        other => panic!("unexpected {:?}", other),
    }
    match remove_secure_padding(&[1, 2, 0]) {
        Err(CryptoError::InvalidPadding(message)) => assert_eq!(message, "Invalid padding length"),
        other => panic!("unexpected {:?}", other),
    }
    match remove_secure_padding(&[1, 2, 4]) {
        Err(CryptoError::InvalidPadding(message)) => assert_eq!(message, "Invalid padding length"),
        other => panic!("unexpected {:?}", other),
    }
    assert_eq!(remove_secure_padding(&[1, 2, 3]).unwrap(), Vec::<u8>::new());
    assert_eq!(remove_secure_padding(&[1, 2, 1]).unwrap(), vec![1u8, 2]);
}

#[test]
fn flipping_any_bit_of_a_ciphertext_makes_decryption_fail() {
    let key = [3u8; 32];
    let encrypted = encrypt(&key, b"attack at dawn").unwrap();
    assert_eq!(encrypted.len(), 24 + 255 + 16);
    for byte in 0..encrypted.len() {
        for bit in 0..8 {
            let mut tampered = encrypted.clone();
            tampered[byte] ^= 1 << bit;
            assert!(matches!(decrypt(&key, &tampered), Err(CryptoError::DecryptionFailed)));
        }
    }
}

#[test]
fn decrypting_under_another_key_fails() {
    let encrypted = encrypt(&[1u8; 32], b"secret").unwrap();
    assert!(matches!(decrypt(&[2u8; 32], &encrypted), Err(CryptoError::DecryptionFailed)));
}

#[test]
fn a_ciphertext_shorter_than_a_nonce_is_invalid() {
    let key = [1u8; 32];
    match decrypt(&key, &[0u8; 23]) {
        Err(CryptoError::InvalidCiphertext(message)) => assert_eq!(message, "Ciphertext too short"),
        other => panic!("unexpected {:?}", other),
    }
    assert!(matches!(decrypt(&key, &[]), Err(CryptoError::InvalidCiphertext(_))));
    // A nonce with nothing after it, or with less than a tag, is not too short: it fails.
    assert!(matches!(decrypt(&[0u8; 32], &[0u8; 24]), Err(CryptoError::DecryptionFailed)));
    assert!(matches!(decrypt(&key, &[0u8; 24]), Err(CryptoError::DecryptionFailed)));
    assert!(matches!(decrypt(&key, &[0u8; 39]), Err(CryptoError::DecryptionFailed)));
    assert!(matches!(decrypt(&key, &[0u8; 40]), Err(CryptoError::DecryptionFailed)));
}

#[test]
fn encryption_with_given_nonce_and_filler_is_reproducible() {
    let key = [0x11u8; 32];
    let nonce = [0x22u8; 24];
    let filler = [0x33u8; 249];
    let first = encrypt_with(&key, &nonce, &filler, b"hello");
    let second = encrypt_with(&key, &nonce, &filler, b"hello");
    assert_eq!(first, second);
    assert_eq!(first.len(), 24 + 255 + 16);
    assert_eq!(first[..24], nonce[..]);
    let padded = pad_with_filler(b"hello", &filler);
    assert_ne!(first[24..24 + 255], padded[..]);
    assert_eq!(decrypt(&key, &first).unwrap(), b"hello".to_vec());
    let other = encrypt_with(&key, &[0x23u8; 24], &filler, b"hello");
    assert_ne!(first[24..], other[24..]);
}

#[test]
fn key_derivation_is_deterministic() {
    let salt = [5u8; 16];
    let config = light_config();
    let first = derive_key_with_config("correct-horse-battery", &salt, &config);
    let second = derive_key_with_config("correct-horse-battery", &salt, &config);
    assert_eq!(first, second);
    assert_eq!(
        first,
        [
            132, 230, 36, 184, 71, 144, 255, 116, 181, 13, 133, 28, 41, 160, 230, 134, 65, 59, 16,
            163, 52, 8, 149, 34, 22, 37, 100, 183, 158, 131, 235, 95
        ]
    );
    let other_password = derive_key_with_config("correct-horse-batterz", &salt, &config);
    assert_ne!(first, other_password);
    let other_salt = derive_key_with_config("correct-horse-battery", &[6u8; 16], &config);
    assert_ne!(first, other_salt);
    let other_cost = derive_key_with_config(
        "correct-horse-battery",
        &salt,
        &Argon2Config { memory_cost: 64, time_cost: 2, parallelism: 1, hash_length: None },
    );
    assert_ne!(first, other_cost);
}

#[test]
fn key_derivation_with_defaults_is_deterministic() {
    // Argon2id with 64 MiB, 3 passes and 4 lanes.
    let expected = [
        154, 20, 172, 89, 43, 239, 139, 108, 145, 162, 25, 32, 250, 47, 37, 227, 74, 136, 23, 65,
        38, 64, 137, 251, 30, 153, 100, 170, 193, 131, 178, 21,
    ];
    assert_eq!(derive_key("pw", &[1u8; 32]), expected);
    assert_eq!(derive_key_with_config("pw", &[1u8; 32], &Argon2Config::default()), expected);
}

#[test]
fn default_configuration_is_the_documented_one() {
    let config = Argon2Config::default();
    assert_eq!(config.memory_cost, 65536);
    assert_eq!(config.time_cost, 3);
    assert_eq!(config.parallelism, 4);
    assert_eq!(config.hash_length, Some(32));
    assert!(config.check());
    assert!(!Argon2Config { memory_cost: 31, time_cost: 3, parallelism: 4, hash_length: None }.check());
    assert!(Argon2Config { memory_cost: 32, time_cost: 3, parallelism: 4, hash_length: None }.check());
    assert!(!Argon2Config { memory_cost: 64, time_cost: 0, parallelism: 1, hash_length: None }.check());
    assert!(!Argon2Config { memory_cost: 64, time_cost: 1, parallelism: 0, hash_length: None }.check());
    assert!(!Argon2Config { memory_cost: 64, time_cost: 1, parallelism: 1, hash_length: Some(16) }.check());
}

#[test]
fn a_wiped_key_is_all_zero() {
    let mut key = [0xAAu8; 32];
    wipe_key(&mut key);
    assert_eq!(key, [0u8; 32]);
}

#[test]
fn salts_are_random_and_at_least_sixteen_bytes() {
    assert_eq!(generate_salt(0).unwrap().len(), 16);
    assert_eq!(generate_salt(15).unwrap().len(), 16);
    assert_eq!(generate_salt(16).unwrap().len(), 16);
    assert_eq!(generate_salt(32).unwrap().len(), 32);
    assert_ne!(generate_salt(32).unwrap(), generate_salt(32).unwrap());
    assert_ne!(generate_salt(32).unwrap(), vec![0u8; 32]);
}

#[test]
fn generated_passwords_hold_every_class() {
    let symbols = "!@#$%^&*()_+-=[]{}|;:,.<>?";
    for _ in 0..50 {
        let password = generate_password(12, true).unwrap();
        assert_eq!(password.chars().count(), 12);
        assert!(password.chars().any(|c| c.is_ascii_lowercase()));
        assert!(password.chars().any(|c| c.is_ascii_uppercase()));
        assert!(password.chars().any(|c| c.is_ascii_digit()));
        assert!(password.chars().any(|c| symbols.contains(c)));
        assert!(password.chars().all(|c| c.is_ascii_alphanumeric() || symbols.contains(c)));
    }
    for _ in 0..50 {
        let password = generate_password(10, false).unwrap();
        assert_eq!(password.len(), 10);
        assert!(password.chars().all(|c| c.is_ascii_alphanumeric()));
        assert!(password.chars().any(|c| c.is_ascii_lowercase()));
        assert!(password.chars().any(|c| c.is_ascii_uppercase()));
        assert!(password.chars().any(|c| c.is_ascii_digit()));
    }
    assert_eq!(generate_password(0, true).unwrap().len(), 4);
    assert_eq!(generate_password(2, false).unwrap().len(), 3);
    assert_ne!(generate_password(24, true).unwrap(), generate_password(24, true).unwrap());
}

#[test]
fn password_strength_is_scored_as_documented() {
    let empty = estimate_password_strength("");
    assert_eq!(empty.score, 0);
    assert_eq!(empty.level, "Weak");
    assert_eq!(
        empty.feedback,
        vec![
            "Password too short (minimum 8 characters)",
            "Use both uppercase and lowercase letters",
            "Include at least one number",
            "Include special characters",
        ]
    );

    let sequential = estimate_password_strength("abc");
    assert_eq!(sequential.score, 0);
    assert_eq!(sequential.feedback.last().unwrap(), "Avoid sequential characters");

    let lower_eight = estimate_password_strength("qwertzui");
    assert_eq!(lower_eight.score, 30);
    assert_eq!(lower_eight.level, "Weak");

    let mixed = estimate_password_strength("Tr0ub4dor&3x");
    assert_eq!(mixed.score, 75);
    assert_eq!(mixed.level, "Good");
    assert!(mixed.feedback.is_empty());

    let long = estimate_password_strength("Tr0ub4dor&3xTr0ub4dor&3x");
    assert_eq!(long.score, 90);
    assert_eq!(long.level, "Strong");

    let run = estimate_password_strength("Tr0ub4dor&3xyz");
    assert_eq!(run.score, 60);
    assert_eq!(run.level, "Fair");
    assert_eq!(run.feedback, vec!["Avoid sequential characters"]);

    let no_symbol = estimate_password_strength("Password1234");
    assert_eq!(no_symbol.score, 50);
    assert_eq!(no_symbol.feedback, vec!["Include special characters", "Avoid sequential characters"]);
}

#[test]
fn strength_indicator_names_the_level() {
    assert_eq!(get_password_strength_indicator(""), "🔴 Weak");
    assert_eq!(get_password_strength_indicator("qwertzuiopQ"), "🟡 Fair");
    assert_eq!(get_password_strength_indicator("Tr0ub4dor&3x"), "🟢 Good");
    assert_eq!(get_password_strength_indicator("Tr0ub4dor&3xTr0ub4dor&3x"), "🛡️ Strong");
}

#[test]
fn a_derivation_under_a_tenth_of_a_second_is_too_fast() {
    assert!(derivation_too_fast(0));
    assert!(derivation_too_fast(99_999_999));
    assert!(!derivation_too_fast(100_000_000));
    assert!(!derivation_too_fast(5_000_000_000));
}

#[test]
fn a_fast_derivation_calls_for_a_warning() {
    assert_eq!(
        derivation_warning(0).as_deref(),
        Some("Key derivation completed in 0ms (recommended: >100ms)")
    );
    assert_eq!(
        derivation_warning(5_999_999).as_deref(),
        Some("Key derivation completed in 5ms (recommended: >100ms)")
    );
    assert_eq!(
        derivation_warning(99_999_999).as_deref(),
        Some("Key derivation completed in 99ms (recommended: >100ms)")
    );
    assert_eq!(derivation_warning(100_000_000), None);
    assert_eq!(derivation_warning(u128::MAX), None);
}

#[test]
fn a_timed_derivation_gives_the_same_key() {
    let salt = [5u8; 16];
    let (key, warning) = derive_key_timed("correct-horse-battery", &salt, &light_config());
    assert_eq!(key, derive_key_with_config("correct-horse-battery", &salt, &light_config()));
    let text = warning.unwrap();
    assert!(text.starts_with("Key derivation completed in "));
    assert!(text.ends_with("ms (recommended: >100ms)"));
}

#[test]
fn the_benchmark_measures_a_derivation() {
    let elapsed = benchmark_key_derivation().unwrap();
    assert!(elapsed.as_nanos() > 0);
    println!("one derivation took {} ms", elapsed.as_millis());
}

#[test]
fn a_password_is_checked_against_its_stored_hash() {
    let salt = argon2::password_hash::SaltString::encode_b64(&[7u8; 16]).unwrap();
    let params = argon2::Params::new(64, 1, 1, None).unwrap();
    let hasher = argon2::Argon2::new(argon2::Algorithm::Argon2id, argon2::Version::V0x13, params);
    let stored = argon2::PasswordHasher::hash_password(&hasher, b"correct-horse-battery", &salt)
        .unwrap()
        .to_string();
    assert!(stored.starts_with("$argon2id$v=19$m=64,t=1,p=1$"));
    assert_eq!(verify_password("correct-horse-battery", &stored).unwrap(), true);
    assert_eq!(verify_password("wrong-horse-battery", &stored).unwrap(), false);
    assert!(matches!(verify_password("pw", "not a hash"), Err(CryptoError::InvalidHash)));
    assert!(matches!(verify_password("pw", ""), Err(CryptoError::InvalidHash)));
}

#[test]
fn a_stored_hash_with_invalid_costs_is_an_invalid_hash() {
    let salt = argon2::password_hash::SaltString::encode_b64(&[7u8; 16]).unwrap();
    let params = argon2::Params::new(64, 1, 1, None).unwrap();
    let hasher = argon2::Argon2::new(argon2::Algorithm::Argon2id, argon2::Version::V0x13, params);
    let stored = argon2::PasswordHasher::hash_password(&hasher, b"correct-horse-battery", &salt)
        .unwrap()
        .to_string();
    for costs in [
        "m=8,t=1,p=536870912",
        "m=4294967295,t=1,p=536870912",
        "m=4294967295,t=1,p=4294967295",
        "m=64,t=1,p=16777216",
        "m=64,t=1,p=0",
        "m=64,t=1,p=9",
        "m=7,t=1,p=1",
        "m=64,t=0,p=1",
    ] {
        let altered = stored.replace("m=64,t=1,p=1", costs);
        assert_ne!(altered, stored);
        assert!(
            matches!(verify_password("correct-horse-battery", &altered), Err(CryptoError::InvalidHash)),
            "{}",
            costs
        );
    }
    // Other valid costs give another hash: the password no longer matches.
    let other = stored.replace("m=64,t=1,p=1", "m=64,t=2,p=1");
    assert_eq!(verify_password("correct-horse-battery", &other).unwrap(), false);
    let fewer = stored.replace("m=64,t=1,p=1", "m=64,t=1");
    assert_eq!(verify_password("correct-horse-battery", &fewer).unwrap(), true);
}

#[test]
fn four_bytes_read_as_a_number_lowest_first() {
    assert_eq!(u32_from_le_bytes(&[0, 0, 0, 0]), 0);
    assert_eq!(u32_from_le_bytes(&[1, 0, 0, 0]), 1);
    assert_eq!(u32_from_le_bytes(&[0, 1, 0, 0]), 256);
    assert_eq!(u32_from_le_bytes(&[0x78, 0x56, 0x34, 0x12]), 0x1234_5678);
    assert_eq!(u32_from_le_bytes(&[255, 255, 255, 255]), u32::MAX);
    assert_eq!(u32_from_le_bytes(&[4, 3, 2, 1]), u32::from_le_bytes([4, 3, 2, 1]));
}

#[test]
fn padding_one_byte_short_of_a_block_is_the_marker_alone() {
    for len in [254usize, 509, 764] {
        let message = vec![7u8; len];
        let mut expected = message.clone();
        expected.push(1);
        assert_eq!(add_secure_padding(&message).unwrap(), expected);
    }
}

#[test]
fn a_strength_follows_from_what_was_found() {
    let all = CharClasses { lowercase: true, uppercase: true, digits: true, symbols: true };
    let none = CharClasses { lowercase: false, uppercase: false, digits: false, symbols: false };
    let lower = CharClasses { lowercase: true, ..none };
    for (len, classes, run, score, level) in [
        (0usize, none, false, 0u32, "Weak"),
        (7, all, false, 40, "Fair"),
        (8, all, false, 60, "Fair"),
        (11, all, true, 45, "Fair"),
        (12, all, false, 75, "Good"),
        (15, all, true, 60, "Fair"),
        (16, all, false, 90, "Strong"),
        (16, all, true, 75, "Good"),
        (16, none, false, 50, "Fair"),
        (3, lower, true, 0, "Weak"),
        (8, lower, true, 15, "Weak"),
        (usize::MAX, all, false, 90, "Strong"),
    ] {
        let strength = strength_from(len, classes, run);
        assert_eq!(strength.score, score, "{} {:?} {}", len, classes, run);
        assert_eq!(strength.level, level);
    }
    assert_eq!(
        strength_from(3, lower, true).feedback,
        vec![
            "Password too short (minimum 8 characters)",
            "Use both uppercase and lowercase letters",
            "Include at least one number",
            "Include special characters",
            "Avoid sequential characters",
        ]
    );
    assert!(strength_from(20, all, false).feedback.is_empty());
}
