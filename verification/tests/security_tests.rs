use passman::security::audit::{
    authentication_event, format_event, security_violation_event, suspicious_activity_event,
    vault_operation_event, LogIntegrityChecker,
};
use passman::security::utils;
use passman::security::{
    generate_session_id, AuditAction, AuditLog, SecurityEvent, SecurityEventType,
    SecuritySeverity, ThreatDetector, VaultLock,
};

const SECOND: u128 = 1_000_000_000;

fn event_at(timestamp: i64, event_type: SecurityEventType, severity: SecuritySeverity, message: &str) -> SecurityEvent {
    SecurityEvent::new_at(timestamp, event_type, severity, message, "test")
}

#[test]
fn test_security_event_creation() {
    let event = SecurityEvent::new(
        SecurityEventType::Authentication,
        SecuritySeverity::High,
        "Test event",
        "test",
    );

    assert_eq!(event.event_type, SecurityEventType::Authentication);
    assert_eq!(event.severity, SecuritySeverity::High);
    assert_eq!(event.message, "Test event");
}

#[test]
fn test_vault_lock_functionality() {
    let lock = VaultLock::new(1); // 1 second timeout

    assert!(!lock.is_locked());

    assert!(lock.is_locked_at(2 * SECOND));
}

#[test]
fn test_threat_detector() {
    let mut detector = ThreatDetector::new();
    let event = SecurityEvent::new(
        SecurityEventType::Authentication,
        SecuritySeverity::Medium,
        "Failed login",
        "auth",
    );

    // Should not trigger on first event
    assert!(detector.analyze_event(&event).is_none());
}

#[test]
fn test_rate_limiter() {
    let mut limiter = utils::RateLimiter::new(2, 1);

    assert!(limiter.check_rate_limit());
    assert!(limiter.check_rate_limit());
    assert!(!limiter.check_rate_limit()); // Should be rate limited
}

#[test]
fn rate_limiter_forgets_requests_older_than_the_window() {
    let mut limiter = utils::RateLimiter::new(2, 1);
    assert!(limiter.check_rate_limit_at(0));
    assert!(limiter.check_rate_limit_at(SECOND / 2));
    assert!(!limiter.check_rate_limit_at(SECOND));
    assert!(limiter.check_rate_limit_at(SECOND + 1));
    assert!(!limiter.check_rate_limit_at(SECOND + 2));
    assert!(limiter.check_rate_limit_at(3 * SECOND));
    let mut closed = utils::RateLimiter::new(0, 10);
    assert!(!closed.check_rate_limit_at(5));
}

#[test]
fn an_event_carries_what_it_is_given() {
    let event = SecurityEvent::new_at(
        42,
        SecurityEventType::DataAccess,
        SecuritySeverity::Low,
        "read",
        "vault",
    )
    .with_context("alice")
    .with_session("s-1")
    .with_data("k", "v1")
    .with_data("other", "w")
    .with_data("k", "v2");
    assert_eq!(event.timestamp, 42);
    assert_eq!(event.source, "vault");
    assert_eq!(event.user_context.as_deref(), Some("alice"));
    assert_eq!(event.session_id.as_deref(), Some("s-1"));
    assert_eq!(event.ip_address, None);
    assert_eq!(
        event.additional_data,
        vec![("k".to_string(), "v2".to_string()), ("other".to_string(), "w".to_string())]
    );
    let copy = event.clone();
    assert_eq!(copy.message, "read");
    assert_eq!(copy.additional_data, event.additional_data);
}

#[test]
fn a_new_event_is_stamped_with_the_present() {
    let event = SecurityEvent::new(SecurityEventType::Authentication, SecuritySeverity::Info, "m", "s");
    // After 2020-01-01 and before 2100-01-01, in milliseconds.
    assert!(event.timestamp > 1_577_836_800_000);
    assert!(event.timestamp < 4_102_444_800_000);
}

#[test]
fn severities_are_ordered() {
    let levels = [
        SecuritySeverity::Info,
        SecuritySeverity::Low,
        SecuritySeverity::Medium,
        SecuritySeverity::High,
        SecuritySeverity::Critical,
    ];
    for (i, a) in levels.iter().enumerate() {
        assert_eq!(a.rank(), i);
        for (j, b) in levels.iter().enumerate() {
            assert_eq!(a.at_least(*b), i >= j);
            assert_eq!(a >= b, i >= j);
        }
    }
    assert_eq!(SecuritySeverity::Critical.label(), "Critical");
    assert_eq!(SecurityEventType::VaultOperation.label(), "VaultOperation");
    assert_eq!(SecurityEventType::CryptoOperation.index(), 9);
}

#[test]
fn lockout_follows_five_failed_attempts_and_ends_by_itself() {
    let mut lock = VaultLock::new(900);
    let start = 10 * SECOND;
    lock.refresh_at(start);
    for attempt in 1..=4u32 {
        assert!(!lock.record_failed_attempt_at(start + attempt as u128));
        assert_eq!(lock.get_failed_attempts(), attempt);
        assert!(!lock.is_locked_at(start + attempt as u128));
    }
    let fifth = start + 5;
    assert!(lock.record_failed_attempt_at(fifth));
    assert_eq!(lock.get_failed_attempts(), 5);
    assert!(lock.is_locked_at(fifth));
    assert!(lock.is_locked_at(fifth + 300 * SECOND - 1));
    assert_eq!(lock.get_lockout_remaining_at(fifth + SECOND), Some(299 * SECOND));
    assert!(!lock.is_locked_at(fifth + 300 * SECOND));
    assert_eq!(lock.get_lockout_remaining_at(fifth + 300 * SECOND), None);
    assert_eq!(lock.get_failed_attempts(), 5);
    assert!(lock.is_locked_at(start + 900 * SECOND + 1));
}

#[test]
fn refresh_clears_the_counter_but_not_a_lockout() {
    let mut lock = VaultLock::new(900);
    for _ in 0..5 {
        lock.record_failed_attempt_at(SECOND);
    }
    lock.refresh_at(2 * SECOND);
    assert_eq!(lock.get_failed_attempts(), 0);
    assert!(lock.is_locked_at(3 * SECOND));
    assert!(!lock.is_locked_at(302 * SECOND));
    assert!(!lock.record_failed_attempt_at(303 * SECOND));
}

#[test]
fn the_idle_timer_locks_after_the_timeout() {
    let mut lock = VaultLock::new(900);
    assert!(!lock.is_locked_at(900 * SECOND));
    assert!(lock.is_locked_at(900 * SECOND + 1));
    assert_eq!(lock.time_until_lock_at(0), 900 * SECOND);
    assert_eq!(lock.time_until_lock_at(100 * SECOND), 800 * SECOND);
    assert_eq!(lock.time_until_lock_at(901 * SECOND), 0);
    lock.refresh_at(901 * SECOND);
    assert!(!lock.is_locked_at(902 * SECOND));
    assert_eq!(lock.time_until_lock_at(902 * SECOND), 899 * SECOND);
    assert_eq!(lock.get_lockout_remaining_at(0), None);
}

#[test]
fn a_fresh_lock_reads_its_own_clock() {
    let mut lock = VaultLock::new(900);
    assert!(!lock.is_locked());
    assert!(lock.time_until_lock() <= 900 * SECOND);
    assert!(lock.time_until_lock() > 890 * SECOND);
    assert_eq!(lock.get_lockout_remaining(), None);
    for _ in 0..4 {
        assert!(!lock.record_failed_attempt());
    }
    assert!(lock.record_failed_attempt());
    assert!(lock.is_locked());
    let left = lock.get_lockout_remaining().unwrap();
    assert!(left <= 300 * SECOND && left > 290 * SECOND);
    lock.refresh();
    assert_eq!(lock.get_failed_attempts(), 0);
}

#[test]
fn logging_over_capacity_evicts_the_oldest_event() {
    let mut log = AuditLog::new();
    for i in 0..10001 {
        let event = event_at(1_000 + i, SecurityEventType::DataAccess, SecuritySeverity::Info, &format!("event {}", i));
        let actions = log.log_event_at(event, 1_000 + i);
        assert!(actions.is_empty());
    }
    assert_eq!(log.len(), 10000);
    assert_eq!(log.events()[0].message, "event 1");
    assert_eq!(log.events()[9999].message, "event 10000");
}

#[test]
fn a_small_trail_stays_within_its_capacity() {
    let mut log = AuditLog::new_with_capacity(3);
    for i in 0..5 {
        log.log_event_at(event_at(i, SecurityEventType::DataAccess, SecuritySeverity::Low, &format!("e{}", i)), i);
        assert!(log.len() <= 3);
    }
    let messages: Vec<&str> = log.events().iter().map(|e| e.message.as_str()).collect();
    assert_eq!(messages, vec!["e2", "e3", "e4"]);
    let mut none = AuditLog::new_with_capacity(0);
    none.log_event_at(event_at(0, SecurityEventType::DataAccess, SecuritySeverity::Low, "gone"), 0);
    assert_eq!(none.len(), 0);
    assert_eq!(AuditLog::new().len(), 0);
}

#[test]
fn reports_of_threats_count_towards_the_capacity() {
    let mut log = AuditLog::new_with_capacity(25);
    for i in 0..60 {
        let actions = log.log_event_at(
            event_at(i, SecurityEventType::VaultOperation, SecuritySeverity::Info, &format!("op {}", i)),
            i,
        );
        assert_eq!(actions.len(), if i >= 19 { 1 } else { 0 });
        assert!(log.len() <= 25);
        assert_eq!(log.events().last().unwrap().message, format!("op {}", i));
    }
    assert_eq!(log.len(), 25);
    // The newest twelve operations, each after the report of the threat that it raised.
    assert_eq!(log.events()[0].message, "op 47");
    assert!(log.events()[1].message.starts_with("THREAT DETECTED: "));
    assert_eq!(log.events()[2].message, "op 48");
}

#[test]
fn five_authentications_within_five_minutes_raise_a_threat() {
    let mut detector = ThreatDetector::new();
    for i in 0..4 {
        let event = event_at(i * 10_000, SecurityEventType::Authentication, SecuritySeverity::Medium, "Failed login");
        assert!(detector.analyze_event_at(&event, i * 10_000).is_none());
    }
    let fifth = event_at(40_000, SecurityEventType::Authentication, SecuritySeverity::Medium, "Failed login");
    let threat = detector.analyze_event_at(&fifth, 40_000).unwrap();
    assert_eq!(threat.threat_type, "Multiple Failed Authentications");
    assert_eq!(threat.description, "Detected Multiple Failed Authentications matching pattern criteria");
    assert_eq!(threat.confidence, 80);
}

#[test]
fn authentications_spread_over_time_raise_no_threat() {
    let mut detector = ThreatDetector::new();
    for i in 0..10 {
        let at = i * 100_000;
        let event = event_at(at, SecurityEventType::Authentication, SecuritySeverity::Medium, "Failed login");
        assert!(detector.analyze_event_at(&event, at).is_none());
    }
    let other = event_at(900_001, SecurityEventType::DataAccess, SecuritySeverity::Info, "read");
    assert!(detector.analyze_event_at(&other, 900_001).is_none());
}

#[test]
fn events_older_than_an_hour_no_longer_count() {
    let mut detector = ThreatDetector::new();
    for i in 0..4 {
        let event = event_at(i, SecurityEventType::Authentication, SecuritySeverity::Medium, "old");
        assert!(detector.analyze_event_at(&event, i).is_none());
    }
    // Stamped within the window of the old events, but seen more than an hour later.
    let late = event_at(100, SecurityEventType::Authentication, SecuritySeverity::Medium, "late");
    assert!(detector.analyze_event_at(&late, 3_600_000 + 50).is_none());
}

#[test]
fn twenty_vault_operations_within_a_minute_raise_an_alert() {
    let mut log = AuditLog::new_with_capacity(100);
    for i in 0..19 {
        let actions = log.log_event_at(event_at(i, SecurityEventType::VaultOperation, SecuritySeverity::Info, "op"), i);
        assert!(actions.is_empty());
    }
    let actions = log.log_event_at(event_at(19, SecurityEventType::VaultOperation, SecuritySeverity::Info, "op"), 19);
    assert_eq!(actions.len(), 1);
    match &actions[0] {
        AuditAction::Alert(message) => assert_eq!(
            message,
            "THREAT DETECTED: Detected Rapid Vault Access matching pattern criteria (confidence: 60%)"
        ),
        other => panic!("unexpected {:?}", other),
    }
    assert_eq!(log.len(), 21);
    let report = &log.events()[19];
    assert_eq!(report.event_type, SecurityEventType::SecurityViolation);
    assert_eq!(report.severity, SecuritySeverity::Critical);
    assert_eq!(report.source, "threat_detector");
    assert_eq!(report.timestamp, 19);
    assert_eq!(
        report.additional_data,
        vec![
            ("threat_type".to_string(), "Rapid Vault Access".to_string()),
            ("confidence".to_string(), "60".to_string()),
        ]
    );
    assert_eq!(log.events()[20].message, "op");
}

#[test]
fn severe_events_are_flushed_where_a_file_is_set() {
    let mut log = AuditLog::new_with_capacity(10);
    let high = event_at(1, SecurityEventType::DataAccess, SecuritySeverity::High, "severe");
    assert!(log.log_event_at(high.clone(), 1).is_empty());
    log.set_file_path("/tmp/audit.log");
    assert_eq!(log.file_path().as_deref(), Some("/tmp/audit.log"));
    let actions = log.log_event_at(high, 2);
    assert_eq!(actions.len(), 1);
    match &actions[0] {
        AuditAction::Persist(event) => assert_eq!(event.message, "severe"),
        other => panic!("unexpected {:?}", other),
    }
    let medium = event_at(3, SecurityEventType::DataAccess, SecuritySeverity::Medium, "mild");
    assert!(log.log_event_at(medium, 3).is_empty());
}

#[test]
fn a_security_violation_asks_for_an_alert() {
    let mut log = AuditLog::new();
    let actions = log.log_security_violation("tamper", "checksum mismatch");
    assert_eq!(actions.len(), 1);
    match &actions[0] {
        AuditAction::Alert(message) => assert_eq!(message, "Security violation: tamper - checksum mismatch"),
        other => panic!("unexpected {:?}", other),
    }
    assert_eq!(log.len(), 1);
    assert_eq!(log.events()[0].severity, SecuritySeverity::High);
    assert_eq!(log.events()[0].source, "security_monitor");
}

#[test]
fn the_kinds_of_log_entry_are_built_as_documented() {
    let ok = authentication_event(5, true, Some("alice"), "password");
    assert_eq!(ok.severity, SecuritySeverity::Info);
    assert_eq!(ok.message, "Authentication successful: password");
    assert_eq!(ok.user_context.as_deref(), Some("alice"));
    assert_eq!(ok.source, "auth");
    let failed = authentication_event(5, false, None, "password");
    assert_eq!(failed.severity, SecuritySeverity::Medium);
    assert_eq!(failed.message, "Authentication failed: password");
    assert_eq!(failed.user_context, None);

    for (operation, severity) in [
        ("delete", SecuritySeverity::Medium),
        ("export", SecuritySeverity::Medium),
        ("import", SecuritySeverity::Medium),
        ("decrypt", SecuritySeverity::Low),
        ("encrypt", SecuritySeverity::Low),
        ("list", SecuritySeverity::Info),
        ("Delete", SecuritySeverity::Info),
    ] {
        let event = vault_operation_event(7, operation, "details", None);
        assert_eq!(event.severity, severity);
        assert_eq!(event.message, format!("Vault operation: {} - details", operation));
        assert_eq!(event.event_type, SecurityEventType::VaultOperation);
    }

    let violation = security_violation_event(9, "tamper", "x");
    assert_eq!(violation.severity, SecuritySeverity::High);

    for (score, severity) in [
        (0u32, SecuritySeverity::Low),
        (30, SecuritySeverity::Low),
        (31, SecuritySeverity::Medium),
        (60, SecuritySeverity::Medium),
        (61, SecuritySeverity::High),
        (80, SecuritySeverity::High),
        (81, SecuritySeverity::Critical),
        (4_000_000_000, SecuritySeverity::Critical),
    ] {
        let event = suspicious_activity_event(1, "scan", score);
        assert_eq!(event.severity, severity);
        assert_eq!(event.message, format!("Suspicious activity detected: scan (risk score: {})", score));
        assert_eq!(event.additional_data, vec![("risk_score".to_string(), score.to_string())]);
    }
}

#[test]
fn the_log_methods_record_one_event_each() {
    let mut log = AuditLog::new();
    let structured = SecurityEvent::new(SecurityEventType::CryptoOperation, SecuritySeverity::Low, "derive", "kdf");
    assert!(log.log_event(structured).is_empty());
    assert_eq!(log.len(), 1);
    assert_eq!(log.events()[0].source, "kdf");
    let mut log = AuditLog::new();
    log.log("hello");
    log.log_authentication(false, Some("bob"), "bad password");
    log.log_vault_operation("export", "all", None);
    log.log_suspicious_activity("scan", 90);
    assert_eq!(log.len(), 4);
    assert_eq!(log.events()[0].message, "hello");
    assert_eq!(log.events()[0].event_type, SecurityEventType::VaultOperation);
    assert_eq!(log.events()[0].source, "vault");
    assert_eq!(log.events()[1].user_context.as_deref(), Some("bob"));
    assert_eq!(log.events()[2].severity, SecuritySeverity::Medium);
    assert_eq!(log.events()[3].severity, SecuritySeverity::Critical);
}

#[test]
fn events_print_with_their_time_and_severity() {
    let event = event_at(0, SecurityEventType::Authentication, SecuritySeverity::High, "Test event");
    assert_eq!(format_event(&event), "1970-01-01 00:00:00 UTC [🔴] Authentication: Test event");
    let later = event_at(947_638_923_004, SecurityEventType::VaultOperation, SecuritySeverity::Info, "saved");
    assert_eq!(format_event(&later), "2000-01-12 01:02:03 UTC [ℹ️] VaultOperation: saved");
    let beyond = event_at(i64::MAX, SecurityEventType::DataAccess, SecuritySeverity::Low, "far");
    assert_eq!(format_event(&beyond), "(time out of range) [🟡] DataAccess: far");
}

#[test]
fn recent_logs_come_newest_first() {
    let mut log = AuditLog::new();
    for i in 0..3 {
        log.log_event_at(event_at(i * 1000, SecurityEventType::DataAccess, SecuritySeverity::Medium, &format!("e{}", i)), i * 1000);
    }
    let lines = log.get_recent_logs(2);
    assert_eq!(
        lines,
        vec![
            "1970-01-01 00:00:02 UTC [🟠] DataAccess: e2",
            "1970-01-01 00:00:01 UTC [🟠] DataAccess: e1",
        ]
    );
    assert_eq!(log.get_recent_logs(10).len(), 3);
    assert!(log.get_recent_logs(0).is_empty());
}

#[test]
fn events_are_found_by_kind_and_severity() {
    let mut log = AuditLog::new();
    log.log_event_at(event_at(0, SecurityEventType::DataAccess, SecuritySeverity::Low, "a"), 0);
    log.log_event_at(event_at(1, SecurityEventType::DataAccess, SecuritySeverity::High, "b"), 1);
    log.log_event_at(event_at(2, SecurityEventType::Authorization, SecuritySeverity::Critical, "c"), 2);
    let all = log.get_events_by_criteria(None, None);
    assert_eq!(all.len(), 3);
    let access = log.get_events_by_criteria(Some(SecurityEventType::DataAccess), None);
    assert_eq!(access.iter().map(|e| e.message.as_str()).collect::<Vec<_>>(), vec!["a", "b"]);
    let severe = log.get_events_by_criteria(None, Some(SecuritySeverity::High));
    assert_eq!(severe.iter().map(|e| e.message.as_str()).collect::<Vec<_>>(), vec!["b", "c"]);
    let both = log.get_events_by_criteria(Some(SecurityEventType::DataAccess), Some(SecuritySeverity::High));
    assert_eq!(both.iter().map(|e| e.message.as_str()).collect::<Vec<_>>(), vec!["b"]);
}

#[test]
fn a_report_counts_the_events_of_its_period() {
    let hour = 3_600_000i64;
    let now = 10 * hour;
    let mut log = AuditLog::new();
    log.log_event_at(event_at(now - 3 * hour, SecurityEventType::DataAccess, SecuritySeverity::Critical, "too old"), now - 3 * hour);
    log.log_event_at(event_at(now - 2 * hour, SecurityEventType::DataAccess, SecuritySeverity::High, "edge"), now - 2 * hour);
    log.log_event_at(event_at(now - hour, SecurityEventType::SecurityViolation, SecuritySeverity::Low, "violation"), now - hour);
    log.log_event_at(event_at(now, SecurityEventType::Authentication, SecuritySeverity::Info, "login"), now);
    let report = log.generate_security_report_at(2, now);
    assert_eq!(report.generated_at, now);
    assert_eq!(report.period_hours, 2);
    assert_eq!(report.total_events, 3);
    assert_eq!(report.events_by_severity, vec![1, 1, 0, 1, 0]);
    assert_eq!(report.events_by_type, vec![1, 0, 1, 0, 0, 0, 1, 0, 0, 0]);
    assert_eq!(report.threat_score, 35);
    assert!(report.integrity_status);
    assert_eq!(report.recommendations, vec!["Investigate high-severity event: edge"]);
    let wide = log.generate_security_report_at(24, now);
    assert_eq!(wide.total_events, 4);
    assert_eq!(wide.threat_score, 60);
    let live = log.generate_security_report(1);
    assert_eq!(live.total_events, 0);
}

#[test]
fn the_threat_score_is_capped_at_a_hundred() {
    let events: Vec<SecurityEvent> = (0..5)
        .map(|i| event_at(i, SecurityEventType::SecurityViolation, SecuritySeverity::Critical, "x"))
        .collect();
    assert_eq!(ThreatDetector::calculate_threat_score(&events), 100);
    assert_eq!(ThreatDetector::calculate_threat_score(&events[..2].to_vec()), 90);
    assert_eq!(ThreatDetector::calculate_threat_score(&Vec::new()), 0);
}

#[test]
fn the_checksum_depends_on_the_order_of_the_events() {
    let mut checker = LogIntegrityChecker::new();
    assert_eq!(checker.generate_signature(), "SHA256:0000000000000000");
    assert!(checker.verify_integrity());
    checker.update_checksum_with(5);
    assert_eq!(checker.generate_signature(), "SHA256:0000000000000005");
    checker.update_checksum_with(1);
    assert_eq!(checker.generate_signature(), "SHA256:000000000000009c");
    let mut other = LogIntegrityChecker::new();
    other.update_checksum_with(1);
    other.update_checksum_with(5);
    assert_eq!(other.generate_signature(), "SHA256:0000000000000024");
    let mut wrapped = LogIntegrityChecker::new();
    wrapped.update_checksum_with(u64::MAX);
    wrapped.update_checksum_with(32);
    assert_eq!(wrapped.generate_signature(), "SHA256:0000000000000001");
}

#[test]
fn logging_changes_the_signature() {
    let mut log = AuditLog::new();
    assert_eq!(log.signature(), "SHA256:0000000000000000");
    log.log("first");
    let first = log.signature();
    assert_ne!(first, "SHA256:0000000000000000");
    assert_eq!(first.len(), 23);
    assert!(first[7..].chars().all(|c| c.is_ascii_digit() || ('a'..='f').contains(&c)));
    log.log("second");
    assert_ne!(log.signature(), first);
}

#[test]
fn session_identifiers_are_random_hexadecimal() {
    let id = generate_session_id().unwrap();
    assert_eq!(id.len(), 32);
    assert!(id.chars().all(|c| c.is_ascii_digit() || ('a'..='f').contains(&c)));
    assert_ne!(id, generate_session_id().unwrap());
}

#[test]
fn business_hours_run_from_nine_to_five() {
    assert!(!utils::is_business_hour(0));
    assert!(!utils::is_business_hour(8));
    assert!(utils::is_business_hour(9));
    assert!(utils::is_business_hour(17));
    assert!(!utils::is_business_hour(18));
    assert!(!utils::is_business_hour(23));
    let _ = utils::is_business_hours();
}
