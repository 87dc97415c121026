use persona_forge::tracker::calculate_rate_limit_duration;
use persona_forge::{
    RateLimitReason, SanitizationResult, SecurityCheckResult, SecurityConfig, SecurityTracker,
};

const SECOND: u64 = 1000;

fn risky() -> SanitizationResult {
    SanitizationResult {
        sanitized: String::new(),
        was_modified: true,
        detected_patterns: vec!["test".to_string()],
        risk_score: 40,
    }
}

fn clean() -> SanitizationResult {
    SanitizationResult {
        sanitized: "hello".to_string(),
        was_modified: false,
        detected_patterns: vec![],
        risk_score: 0,
    }
}

#[test]
fn test_strike_accumulation() {
    let mut tracker = SecurityTracker::new(SecurityConfig {
        strike_threshold: 20,
        max_strikes: 3,
        block_duration_ms: 60 * SECOND,
        strike_window_ms: 3600 * SECOND,
    });
    let risky_result = SanitizationResult {
        sanitized: String::new(),
        was_modified: true,
        detected_patterns: vec!["test".to_string()],
        risk_score: 40,
    };

    // First strike - will also apply a rate limit of 60 s.
    let result = tracker.check_and_update(123, &risky_result, 0);
    assert!(matches!(result, SecurityCheckResult::Warning { strikes: 1, .. }));

    // Second strike, once that rate limit has run out; it sets one of 120 s.
    let result = tracker.check_and_update(123, &risky_result, 61 * SECOND);
    assert!(matches!(result, SecurityCheckResult::Warning { strikes: 2, .. }));

    // Third strike - should block.
    let result = tracker.check_and_update(123, &risky_result, 182 * SECOND);
    assert!(matches!(result, SecurityCheckResult::JustBlocked { .. }));

    // Should be blocked now.
    let result = tracker.check_and_update(123, &risky_result, 182 * SECOND);
    assert!(matches!(result, SecurityCheckResult::Blocked { .. }));
}

#[test]
fn test_clean_messages_no_strike() {
    let mut tracker = SecurityTracker::default();
    let clean_result = SanitizationResult {
        sanitized: "hello".to_string(),
        was_modified: false,
        detected_patterns: vec![],
        risk_score: 0,
    };
    let result = tracker.check_and_update(456, &clean_result, 0);
    assert!(matches!(result, SecurityCheckResult::Allowed));
}

#[test]
fn test_rate_limiting() {
    let mut tracker = SecurityTracker::default();
    let clean_result = clean();

    // Send 20 messages (max for a clean user).
    for i in 0..20u64 {
        let result = tracker.check_and_update(789, &clean_result, i * SECOND);
        assert!(matches!(result, SecurityCheckResult::Allowed));
    }

    // 21st message should be rate limited.
    let result = tracker.check_and_update(789, &clean_result, 20 * SECOND);
    assert!(matches!(
        result,
        SecurityCheckResult::RateLimited { reason: RateLimitReason::TooManyMessages, .. }
    ));
    assert_eq!(
        result,
        SecurityCheckResult::RateLimited {
            remaining_seconds: 30,
            reason: RateLimitReason::TooManyMessages
        }
    );
}

#[test]
fn test_adaptive_rate_limit() {
    let mut tracker = SecurityTracker::new(SecurityConfig {
        strike_threshold: 20,
        max_strikes: 10, // High so we don't block
        block_duration_ms: 60 * SECOND,
        strike_window_ms: 3600 * SECOND,
    });

    // Get a violation to reduce the allowance.
    let _ = tracker.check_and_update(999, &risky(), 0);

    // Past the 60 s rate limit and the 60 s message window.
    let start = 61 * SECOND;
    let clean_result = clean();

    // User with 1 violation should have 15 msg/min limit.
    for _ in 0..15 {
        let result = tracker.check_and_update(999, &clean_result, start);
        assert!(matches!(result, SecurityCheckResult::Allowed));
    }

    // 16th should be rate limited with SuspiciousHistory reason.
    let result = tracker.check_and_update(999, &clean_result, start);
    assert!(matches!(
        result,
        SecurityCheckResult::RateLimited { reason: RateLimitReason::SuspiciousHistory, .. }
    ));
}

#[test]
fn three_strikes_exact_decisions() {
    let mut tracker = SecurityTracker::new(SecurityConfig {
        strike_threshold: 20,
        max_strikes: 3,
        block_duration_ms: 60 * SECOND,
        strike_window_ms: 3600 * SECOND,
    });
    assert_eq!(
        tracker.check_and_update(1, &risky(), 0),
        SecurityCheckResult::Warning { strikes: 1, max_strikes: 3 }
    );
    assert_eq!(
        tracker.check_and_update(1, &risky(), 61 * SECOND),
        SecurityCheckResult::Warning { strikes: 2, max_strikes: 3 }
    );
    assert_eq!(
        tracker.check_and_update(1, &risky(), 182 * SECOND),
        SecurityCheckResult::JustBlocked { duration_seconds: 60 }
    );
    assert_eq!(
        tracker.check_and_update(1, &clean(), 200 * SECOND),
        SecurityCheckResult::Blocked { remaining_seconds: 42 }
    );
    assert_eq!(tracker.get_user_stats(1, 200 * SECOND), Some((0, 3, true)));
}

#[test]
fn rate_limit_after_violation_is_suspicious_history() {
    let mut tracker = SecurityTracker::default();
    let _ = tracker.check_and_update(2, &risky(), 0);
    assert_eq!(
        tracker.check_and_update(2, &clean(), 1500),
        SecurityCheckResult::RateLimited {
            remaining_seconds: 58,
            reason: RateLimitReason::SuspiciousHistory
        }
    );
}

#[test]
fn stale_strikes_are_cleared() {
    let mut tracker = SecurityTracker::default();
    assert_eq!(
        tracker.check_and_update(3, &risky(), 0),
        SecurityCheckResult::Warning { strikes: 1, max_strikes: 3 }
    );
    assert_eq!(
        tracker.check_and_update(3, &risky(), 3601 * SECOND),
        SecurityCheckResult::Warning { strikes: 1, max_strikes: 3 }
    );
    assert_eq!(tracker.get_user_stats(3, 3601 * SECOND), Some((1, 2, false)));
}

#[test]
fn manual_block_and_unblock() {
    let mut tracker = SecurityTracker::default();
    tracker.block_user(5, 60 * SECOND, 0);
    assert_eq!(
        tracker.check_and_update(5, &clean(), 1000),
        SecurityCheckResult::Blocked { remaining_seconds: 59 }
    );
    tracker.unblock_user(5);
    assert_eq!(tracker.check_and_update(5, &clean(), 2000), SecurityCheckResult::Allowed);
}

#[test]
fn unblock_of_unknown_identity_adds_nothing() {
    let mut tracker = SecurityTracker::default();
    tracker.unblock_user(6);
    assert_eq!(tracker.get_user_stats(6, 0), None);
}

#[test]
fn block_queries() {
    let mut tracker = SecurityTracker::default();
    assert_eq!(tracker.is_blocked(1, 0), None);
    tracker.block_user(1, 10 * SECOND, 0);
    assert_eq!(tracker.is_blocked(1, 2500), Some(7));
    assert_eq!(tracker.is_blocked(1, 10 * SECOND), None);
    assert_eq!(tracker.get_user_stats(1, 2500), Some((0, 0, true)));
    assert_eq!(tracker.get_user_stats(1, 10 * SECOND), Some((0, 0, false)));
}

#[test]
fn expired_block_clears_strikes() {
    let mut tracker = SecurityTracker::default();
    let _ = tracker.check_and_update(8, &risky(), 0);
    tracker.block_user(8, SECOND, 0);
    assert_eq!(
        tracker.check_and_update(8, &risky(), 61 * SECOND),
        SecurityCheckResult::Warning { strikes: 1, max_strikes: 3 }
    );
}

#[test]
fn cleanup_drops_only_stale_records() {
    let mut tracker = SecurityTracker::default();
    let _ = tracker.check_and_update(1, &clean(), 0);
    let _ = tracker.check_and_update(2, &clean(), 0);
    tracker.block_user(2, 10_000 * SECOND, 0);
    let _ = tracker.check_and_update(3, &clean(), 5000 * SECOND);
    let _ = tracker.check_and_update(4, &risky(), 5000 * SECOND);
    let _ = tracker.check_and_update(5, &risky(), 0);
    tracker.cleanup_old_records(7201 * SECOND);
    assert_eq!(tracker.get_user_stats(1, 7201 * SECOND), None);
    assert_eq!(tracker.get_user_stats(2, 7201 * SECOND), Some((0, 0, true)));
    assert_eq!(tracker.get_user_stats(3, 7201 * SECOND), None);
    assert_eq!(tracker.get_user_stats(4, 7201 * SECOND), Some((1, 1, false)));
    assert_eq!(tracker.get_user_stats(5, 7201 * SECOND), None);
}

#[test]
fn cleanup_drops_never_struck_record_at_once() {
    let mut tracker = SecurityTracker::default();
    let _ = tracker.check_and_update(1, &clean(), 0);
    tracker.cleanup_old_records(0);
    assert_eq!(tracker.get_user_stats(1, 0), None);
}

#[test]
fn default_configuration() {
    let config = SecurityConfig::default();
    assert_eq!(config.strike_threshold, 30);
    assert_eq!(config.max_strikes, 3);
    assert_eq!(config.block_duration_ms, 300 * SECOND);
    assert_eq!(config.strike_window_ms, 3600 * SECOND);
    assert_eq!(SecurityTracker::default().config(), config);
}

#[test]
fn rate_limit_durations() {
    assert_eq!(calculate_rate_limit_duration(0), 30 * SECOND);
    assert_eq!(calculate_rate_limit_duration(1), 60 * SECOND);
    assert_eq!(calculate_rate_limit_duration(2), 120 * SECOND);
    assert_eq!(calculate_rate_limit_duration(4), 300 * SECOND);
    assert_eq!(calculate_rate_limit_duration(9), 600 * SECOND);
}
