//! Per-identity security state: strikes, rate limits and temporary blocks.
//!
//! Time is read from a monotonic clock as milliseconds since a fixed origin;
//! every operation that depends on time takes the current reading `now`.

use vstd::prelude::*;
use std::collections::HashMap;
use vstd::std_specs::iter::IteratorSpec;
use crate::sanitizer::SanitizationResult;

verus! {

broadcast use vstd::std_specs::hash::group_hash_axioms;

/// Length of the message-frequency window, in milliseconds.
pub const RATE_WINDOW_MS: u64 = 60_000;

/// Settings of a tracker, fixed when it is built.
#[derive(Clone, Copy, Debug, PartialEq, Eq)]
pub struct SecurityConfig {
    /// Risk score from which a message earns a strike.
    pub strike_threshold: u8,
    /// Strikes that bring a temporary block.
    pub max_strikes: u8,
    /// Length of a temporary block, in milliseconds.
    pub block_duration_ms: u64,
    /// Strikes older than this many milliseconds no longer count.
    pub strike_window_ms: u64,
}

impl Default for SecurityConfig {
    /// A threshold of 30, three strikes, blocks of five minutes and a strike
    /// window of one hour.
    fn default() -> (r: Self)
        ensures
            r == (SecurityConfig {
                strike_threshold: 30,
                max_strikes: 3,
                block_duration_ms: 300_000,
                strike_window_ms: 3_600_000,
            }),
    {
        SecurityConfig {
            strike_threshold: 30,
            max_strikes: 3,
            block_duration_ms: 300_000,
            strike_window_ms: 3_600_000,
        }
    }
}

/// What one identity has done so far.
#[derive(Clone, Copy, Debug, PartialEq, Eq)]
pub struct UserSecurityRecord {
    /// Strikes within the current strike window.
    pub strikes: u8,
    /// When the last strike came.
    pub last_strike: u64,
    /// End of a temporary block, if one was set.
    pub blocked_until: Option<u64>,
    /// Strikes ever earned; never decreases.
    pub total_violations: u64,
    /// When the last counted message came.
    pub last_message: u64,
    /// Messages counted in the current frequency window.
    pub messages_in_window: u32,
    /// End of a rate limit, if one was set.
    pub rate_limit_until: Option<u64>,
}

/// Why a message was rate limited.
#[derive(Clone, Copy, Debug, PartialEq, Eq)]
pub enum RateLimitReason {
    /// Too many messages in a short time.
    TooManyMessages,
    /// The identity has a history of violations.
    SuspiciousHistory,
}

/// The decision on one message.
#[derive(Clone, Copy, Debug, PartialEq, Eq)]
pub enum SecurityCheckResult {
    /// The message may proceed.
    Allowed,
    /// The identity is blocked for this many more seconds.
    Blocked { remaining_seconds: u64 },
    /// The message earned a strike.
    Warning { strikes: u8, max_strikes: u8 },
    /// The message earned the strike that blocks the identity for this long.
    JustBlocked { duration_seconds: u64 },
    /// The identity is rate limited for this many more seconds.
    RateLimited { remaining_seconds: u64, reason: RateLimitReason },
}

/// The record of an identity first seen at `now`.
pub open spec fn fresh_record(now: u64) -> UserSecurityRecord {
    UserSecurityRecord {
        strikes: 0,
        last_strike: now,
        blocked_until: None,
        total_violations: 0,
        last_message: now,
        messages_in_window: 0,
        rate_limit_until: None,
    }
}

/// Time from `since` to `now`, zero when `now` is not later.
pub open spec fn elapsed(now: u64, since: u64) -> int {
    if now > since {
        now - since
    } else {
        0
    }
}

/// `d` after `now`, held at the largest reading when it would go beyond.
pub open spec fn later(now: u64, d: u64) -> u64 {
    if now + d > u64::MAX {
        u64::MAX
    } else {
        (now + d) as u64
    }
}

/// Whole seconds in `ms` milliseconds.
pub open spec fn whole_seconds(ms: int) -> u64 {
    (ms / 1000) as u64
}

/// Messages allowed per window, fewer as violations accumulate.
pub open spec fn message_allowance(total_violations: u64) -> u32 {
    if total_violations == 0 {
        20
    } else if total_violations <= 2 {
        15
    } else if total_violations <= 5 {
        10
    } else if total_violations <= 10 {
        5
    } else {
        3
    }
}

/// Length of a rate limit, in milliseconds, longer as violations accumulate.
pub open spec fn rate_limit_ms(total_violations: u64) -> u64 {
    if total_violations == 0 {
        30_000
    } else if total_violations == 1 {
        60_000
    } else if total_violations == 2 {
        120_000
    } else if total_violations <= 5 {
        300_000
    } else {
        600_000
    }
}

/// The frequency check: the record with its window counter brought up to
/// date, and a rate limit when the allowance is used up.
pub open spec fn frequency_gate(rec: UserSecurityRecord, now: u64) -> (
    UserSecurityRecord,
    Option<SecurityCheckResult>,
) {
    let count = if elapsed(now, rec.last_message) > RATE_WINDOW_MS {
        0
    } else {
        rec.messages_in_window
    };
    if count >= message_allowance(rec.total_violations) {
        let d = rate_limit_ms(rec.total_violations);
        let reason = if rec.total_violations > 0 {
            RateLimitReason::SuspiciousHistory
        } else {
            RateLimitReason::TooManyMessages
        };
        (
            UserSecurityRecord { rate_limit_until: Some(later(now, d)), messages_in_window: 0, ..rec },
            Some(SecurityCheckResult::RateLimited { remaining_seconds: whole_seconds(d as int), reason }),
        )
    } else {
        (UserSecurityRecord { messages_in_window: count, ..rec }, None)
    }
}

/// The record after a message of risk `risk` that passed every gate, and
/// the decision on it.
pub open spec fn strike_step(
    cfg: SecurityConfig,
    rec: UserSecurityRecord,
    risk: u8,
    now: u64,
) -> (UserSecurityRecord, SecurityCheckResult) {
    let counted = UserSecurityRecord {
        messages_in_window: (rec.messages_in_window + 1) as u32,
        last_message: now,
        ..rec
    };
    let strikes = if elapsed(now, rec.last_strike) > cfg.strike_window_ms {
        0
    } else {
        rec.strikes
    };
    if risk >= cfg.strike_threshold {
        let total = if rec.total_violations < u64::MAX {
            (rec.total_violations + 1) as u64
        } else {
            rec.total_violations
        };
        let struck = UserSecurityRecord {
            strikes: (strikes + 1) as u8,
            last_strike: now,
            total_violations: total,
            rate_limit_until: Some(later(now, rate_limit_ms(total))),
            ..counted
        };
        if strikes + 1 >= cfg.max_strikes {
            (
                UserSecurityRecord {
                    blocked_until: Some(later(now, cfg.block_duration_ms)),
                    strikes: 0,
                    ..struck
                },
                SecurityCheckResult::JustBlocked {
                    duration_seconds: whole_seconds(cfg.block_duration_ms as int),
                },
            )
        } else {
            (
                struck,
                SecurityCheckResult::Warning {
                    strikes: (strikes + 1) as u8,
                    max_strikes: cfg.max_strikes,
                },
            )
        }
    } else {
        (UserSecurityRecord { strikes: strikes, ..counted }, SecurityCheckResult::Allowed)
    }
}

/// The record after a message of risk `risk` at `now`, and the decision on
/// it: a block in force, then a rate limit in force, then the frequency
/// check, then the strike rules. An expired block is cleared together with
/// the strikes, an expired rate limit is cleared.
pub open spec fn evaluate(
    cfg: SecurityConfig,
    rec: UserSecurityRecord,
    risk: u8,
    now: u64,
) -> (UserSecurityRecord, SecurityCheckResult) {
    if rec.blocked_until is Some && now < rec.blocked_until.unwrap() {
        (
            rec,
            SecurityCheckResult::Blocked {
                remaining_seconds: whole_seconds(rec.blocked_until.unwrap() - now),
            },
        )
    } else {
        let unblocked = if rec.blocked_until is Some {
            UserSecurityRecord { blocked_until: None, strikes: 0, ..rec }
        } else {
            rec
        };
        if unblocked.rate_limit_until is Some && now < unblocked.rate_limit_until.unwrap() {
            (
                unblocked,
                SecurityCheckResult::RateLimited {
                    remaining_seconds: whole_seconds(unblocked.rate_limit_until.unwrap() - now),
                    reason: RateLimitReason::SuspiciousHistory,
                },
            )
        } else {
            let open = UserSecurityRecord { rate_limit_until: None, ..unblocked };
            let (gated, limited) = frequency_gate(open, now);
            match limited {
                Some(decision) => (gated, decision),
                None => strike_step(cfg, gated, risk, now),
            }
        }
    }
}

impl UserSecurityRecord {
    /// The record of an identity first seen at `now`.
    pub fn new(now: u64) -> (r: Self)
        ensures
            r == fresh_record(now),
    {
        UserSecurityRecord {
            strikes: 0,
            last_strike: now,
            blocked_until: None,
            total_violations: 0,
            last_message: now,
            messages_in_window: 0,
            rate_limit_until: None,
        }
    }
}

/// A record whose strikes are below the configured maximum, or none.
pub open spec fn record_ok(cfg: SecurityConfig, rec: UserSecurityRecord) -> bool {
    rec.strikes < cfg.max_strikes || rec.strikes == 0
}

/// Rate-limit length, in milliseconds, for an identity with this many violations.
pub fn calculate_rate_limit_duration(total_violations: u64) -> (r: u64)
    ensures
        r == rate_limit_ms(total_violations),
{
    if total_violations == 0 {
        30_000
    } else if total_violations == 1 {
        60_000
    } else if total_violations == 2 {
        120_000
    } else if total_violations <= 5 {
        300_000
    } else {
        600_000
    }
}

fn max_messages(total_violations: u64) -> (r: u32)
    ensures
        r == message_allowance(total_violations),
        r <= 20,
{
    if total_violations == 0 {
        20
    } else if total_violations <= 2 {
        15
    } else if total_violations <= 5 {
        10
    } else if total_violations <= 10 {
        5
    } else {
        3
    }
}

fn later_exec(now: u64, d: u64) -> (r: u64)
    ensures
        r == later(now, d),
{
    now.saturating_add(d)
}

fn elapsed_exec(now: u64, since: u64) -> (r: u64)
    ensures
        r == elapsed(now, since),
{
    if now > since {
        now - since
    } else {
        0
    }
}

/// The frequency check on `record` at `now`.
fn check_rate_limit(record: &mut UserSecurityRecord, now: u64) -> (r: Option<SecurityCheckResult>)
    ensures
        (*final(record), r) == frequency_gate(*old(record), now),
        r is None ==> final(record).messages_in_window < message_allowance(
            final(record).total_violations,
        ),
{
    if elapsed_exec(now, record.last_message) > RATE_WINDOW_MS {
        record.messages_in_window = 0;
    }
    let max = max_messages(record.total_violations);
    if record.messages_in_window >= max {
        let limit = calculate_rate_limit_duration(record.total_violations);
        record.rate_limit_until = Some(later_exec(now, limit));
        record.messages_in_window = 0;
        let reason = if record.total_violations > 0 {
            RateLimitReason::SuspiciousHistory
        } else {
            RateLimitReason::TooManyMessages
        };
        return Some(SecurityCheckResult::RateLimited { remaining_seconds: limit / 1000, reason });
    }
    None
}

/// The decision on a message of risk `risk` at `now` for an identity with
/// record `record`, which is brought up to date.
fn evaluate_record(
    config: &SecurityConfig,
    record: &mut UserSecurityRecord,
    risk: u8,
    now: u64,
) -> (r: SecurityCheckResult)
    requires
        record_ok(*config, *old(record)),
    ensures
        (*final(record), r) == evaluate(*config, *old(record), risk, now),
        record_ok(*config, *final(record)),
{
    if let Some(blocked_until) = record.blocked_until {
        if now < blocked_until {
            return SecurityCheckResult::Blocked { remaining_seconds: (blocked_until - now) / 1000 };
        } else {
            record.blocked_until = None;
            record.strikes = 0;
        }
    }
    if let Some(rate_limit_until) = record.rate_limit_until {
        if now < rate_limit_until {
            return SecurityCheckResult::RateLimited {
                remaining_seconds: (rate_limit_until - now) / 1000,
                reason: RateLimitReason::SuspiciousHistory,
            };
        } else {
            record.rate_limit_until = None;
        }
    }
    if let Some(result) = check_rate_limit(record, now) {
        return result;
    }
    record.messages_in_window = record.messages_in_window + 1;
    record.last_message = now;
    if elapsed_exec(now, record.last_strike) > config.strike_window_ms {
        record.strikes = 0;
    }
    if risk >= config.strike_threshold {
        record.strikes = record.strikes + 1;
        record.last_strike = now;
        record.total_violations = record.total_violations.saturating_add(1);
        let rate_limit = calculate_rate_limit_duration(record.total_violations);
        record.rate_limit_until = Some(later_exec(now, rate_limit));
        if record.strikes >= config.max_strikes {
            record.blocked_until = Some(later_exec(now, config.block_duration_ms));
            record.strikes = 0;
            return SecurityCheckResult::JustBlocked {
                duration_seconds: config.block_duration_ms / 1000,
            };
        }
        return SecurityCheckResult::Warning {
            strikes: record.strikes,
            max_strikes: config.max_strikes,
        };
    }
    SecurityCheckResult::Allowed
}


/// A record kept by `cleanup_old_records` at `now`: still blocked, or
/// struck at least once and last struck less than twice the strike window ago.
pub open spec fn worth_keeping(cfg: SecurityConfig, rec: UserSecurityRecord, now: u64) -> bool {
    (rec.blocked_until is Some && now < rec.blocked_until.unwrap()) || (rec.total_violations > 0
        && elapsed(now, rec.last_strike) < 2 * cfg.strike_window_ms)
}

/// Security state of every identity seen, under one configuration.
pub struct SecurityTracker {
    config: SecurityConfig,
    records: HashMap<u64, UserSecurityRecord>,
}

impl SecurityTracker {
    #[verifier::type_invariant]
    spec fn records_ok(&self) -> bool {
        forall|id: u64| #[trigger]
            self.records@.contains_key(id) ==> record_ok(self.config, self.records@[id])
    }

    /// The record of each identity seen.
    pub closed spec fn records(&self) -> Map<u64, UserSecurityRecord> {
        self.records@
    }

    /// The configuration the tracker was built with.
    pub closed spec fn config_view(&self) -> SecurityConfig {
        self.config
    }

    /// The record of `user_id`, or a fresh one at `now` for an identity not seen yet.
    pub open spec fn record_at(&self, user_id: u64, now: u64) -> UserSecurityRecord {
        if self.records().contains_key(user_id) {
            self.records()[user_id]
        } else {
            fresh_record(now)
        }
    }

    /// A tracker with no records.
    pub fn new(config: SecurityConfig) -> (r: Self)
        ensures
            r.config_view() == config,
            r.records() == Map::<u64, UserSecurityRecord>::empty(),
    {
        SecurityTracker { config, records: HashMap::new() }
    }

    /// The configuration the tracker was built with.
    pub fn config(&self) -> (r: SecurityConfig)
        ensures
            r == self.config_view(),
    {
        self.config
    }

    /// Sets the record of `user_id`.
    fn store(&mut self, user_id: u64, record: UserSecurityRecord)
        requires
            record_ok(old(self).config_view(), record),
        ensures
            final(self).config_view() == old(self).config_view(),
            final(self).records() == old(self).records().insert(user_id, record),
    {
        proof {
            use_type_invariant(&*self);
        }
        let mut records: HashMap<u64, UserSecurityRecord> = HashMap::new();
        std::mem::swap(&mut records, &mut self.records);
        records.insert(user_id, record);
        std::mem::swap(&mut records, &mut self.records);
    }

    fn record_or_fresh(&self, user_id: u64, now: u64) -> (r: UserSecurityRecord)
        ensures
            r == self.record_at(user_id, now),
            record_ok(self.config_view(), r),
    {
        proof {
            use_type_invariant(self);
        }
        match self.records.get(&user_id) {
            Some(rec) => *rec,
            None => UserSecurityRecord::new(now),
        }
    }

    /// Seconds left of the block on `user_id` at `now`, if one is in force.
    pub fn is_blocked(&self, user_id: u64, now: u64) -> (r: Option<u64>)
        ensures
            r == (if self.records().contains_key(user_id) && self.records()[user_id].blocked_until is Some
                && now < self.records()[user_id].blocked_until.unwrap() {
                Some(whole_seconds(self.records()[user_id].blocked_until.unwrap() - now))
            } else {
                None
            }),
    {
        match self.records.get(&user_id) {
            Some(rec) => match rec.blocked_until {
                Some(b) => if now < b {
                    Some((b - now) / 1000)
                } else {
                    None
                },
                None => None,
            },
            None => None,
        }
    }

    /// Decides on a message from `user_id` at `now`, given what the
    /// sanitiser found in it, and records the outcome. An identity not seen
    /// yet starts from a fresh record.
    pub fn check_and_update(
        &mut self,
        user_id: u64,
        sanitization_result: &SanitizationResult,
        now: u64,
    ) -> (r: SecurityCheckResult)
        ensures
            final(self).config_view() == old(self).config_view(),
            final(self).records() == old(self).records().insert(
                user_id,
                evaluate(
                    old(self).config_view(),
                    old(self).record_at(user_id, now),
                    sanitization_result.risk_score,
                    now,
                ).0,
            ),
            r == evaluate(
                old(self).config_view(),
                old(self).record_at(user_id, now),
                sanitization_result.risk_score,
                now,
            ).1,
    {
        proof {
            use_type_invariant(&*self);
        }
        let mut record = self.record_or_fresh(user_id, now);
        let result = evaluate_record(&self.config, &mut record, sanitization_result.risk_score, now);
        self.store(user_id, record);
        result
    }

    /// Blocks `user_id` for `duration_ms` from `now`, whatever its state.
    pub fn block_user(&mut self, user_id: u64, duration_ms: u64, now: u64)
        ensures
            final(self).config_view() == old(self).config_view(),
            final(self).records() == old(self).records().insert(
                user_id,
                UserSecurityRecord {
                    blocked_until: Some(later(now, duration_ms)),
                    ..old(self).record_at(user_id, now)
                },
            ),
    {
        proof {
            use_type_invariant(&*self);
        }
        let mut record = self.record_or_fresh(user_id, now);
        record.blocked_until = Some(later_exec(now, duration_ms));
        self.store(user_id, record);
    }

    /// Lifts the block on `user_id` and clears its strikes; an identity not
    /// seen yet is left alone.
    pub fn unblock_user(&mut self, user_id: u64)
        ensures
            final(self).config_view() == old(self).config_view(),
            final(self).records() == (if old(self).records().contains_key(user_id) {
                old(self).records().insert(
                    user_id,
                    UserSecurityRecord {
                        blocked_until: None,
                        strikes: 0,
                        ..old(self).records()[user_id]
                    },
                )
            } else {
                old(self).records()
            }),
    {
        proof {
            use_type_invariant(&*self);
        }
        match self.records.get(&user_id) {
            Some(rec) => {
                let mut record = *rec;
                record.blocked_until = None;
                record.strikes = 0;
                self.store(user_id, record);
            },
            None => {},
        }
    }

    /// Strikes, total violations and whether a block is in force at `now`,
    /// for an identity seen before.
    pub fn get_user_stats(&self, user_id: u64, now: u64) -> (r: Option<(u8, u64, bool)>)
        ensures
            r == (if self.records().contains_key(user_id) {
                let rec = self.records()[user_id];
                Some(
                    (
                        rec.strikes,
                        rec.total_violations,
                        rec.blocked_until is Some && now < rec.blocked_until.unwrap(),
                    ),
                )
            } else {
                None
            }),
    {
        match self.records.get(&user_id) {
            Some(rec) => {
                let blocked = match rec.blocked_until {
                    Some(b) => now < b,
                    None => false,
                };
                Some((rec.strikes, rec.total_violations, blocked))
            },
            None => None,
        }
    }
}

impl SecurityTracker {
    /// Drops the records that are neither blocked at `now` nor struck within
    /// twice the strike window (a record never struck has no recent strike);
    /// the others stay as they are.
    pub fn cleanup_old_records(&mut self, now: u64)
        ensures
            final(self).config_view() == old(self).config_view(),
            forall|id: u64| #[trigger]
                final(self).records().contains_key(id) <==> old(self).records().contains_key(id)
                    && worth_keeping(old(self).config_view(), old(self).records()[id], now),
            forall|id: u64| #[trigger]
                final(self).records().contains_key(id) ==> final(self).records()[id] == old(
                    self,
                ).records()[id],
    {
        proof {
            use_type_invariant(&*self);
        }
        let ghost cfg = self.config;
        let ghost m0 = self.records@;
        let window: u128 = 2 * (self.config.strike_window_ms as u128);
        let mut ids: Vec<u64> = Vec::new();
        let ghost keys = vstd::std_specs::hash::spec_keys_iter(&self.records).remaining();
        for id in it: self.records.keys()
            invariant
                ids@ == it.seq().take(it.index() as int).map_values(|r: &u64| *r),
                it.seq() == keys,
        {
            ids.push(*id);
        }
        assert(ids@ =~= keys.unref());
        assert(ids@.to_set() =~= m0.dom());
        let mut stale: Vec<u64> = Vec::new();
        let mut i: usize = 0;
        while i < ids.len()
            invariant
                i <= ids.len(),
                self.records@ == m0,
                self.config == cfg,
                ids@.to_set() == m0.dom(),
                window == 2 * cfg.strike_window_ms,
                forall|x: u64| #[trigger]
                    stale@.contains(x) ==> m0.contains_key(x) && !worth_keeping(cfg, m0[x], now),
                forall|x: u64| #[trigger]
                    ids@.take(i as int).contains(x) && !worth_keeping(cfg, m0[x], now)
                        ==> stale@.contains(x),
            decreases ids.len() - i,
        {
            let id = ids[i];
            assert(ids@.to_set().contains(id));
            let ghost before = stale@;
            match self.records.get(&id) {
                Some(rec) => {
                    let blocked = match rec.blocked_until {
                        Some(b) => now < b,
                        None => false,
                    };
                    let recent = rec.total_violations > 0 && (elapsed_exec(now, rec.last_strike) as u128)
                        < window;
                    if !blocked && !recent {
                        stale.push(id);
                        assert(stale@[before.len() as int] == id);
                        assert(m0.contains_key(id) && !worth_keeping(cfg, m0[id], now));
                    }
                },
                None => {},
            }
            assert(ids@.take(i + 1) =~= ids@.take(i as int).push(id));
            assert forall|x: u64| #[trigger] stale@.contains(x) implies m0.contains_key(x)
                && !worth_keeping(cfg, m0[x], now) by {
                if !(x == id && stale@.len() > before.len()) {
                    let j = choose|j: int| 0 <= j < stale@.len() && stale@[j] == x;
                    assert(before[j] == x);
                    assert(before.contains(x));
                }
            }
            assert forall|x: u64| #[trigger]
                ids@.take(i + 1).contains(x) && !worth_keeping(cfg, m0[x], now)
                    implies stale@.contains(x) by {
                if x != id {
                    let j = choose|j: int| 0 <= j < i + 1 && #[trigger] ids@.take(i + 1)[j] == x;
                    assert(ids@.take(i as int)[j] == x);
                    assert(ids@.take(i as int).contains(x));
                    assert(before.contains(x));
                    let l = choose|l: int| 0 <= l < before.len() && before[l] == x;
                    assert(stale@[l] == x);
                }
            }
            i += 1;
        }
        assert(ids@.take(ids.len() as int) =~= ids@);
        assert forall|x: u64| m0.contains_key(x) && !worth_keeping(cfg, m0[x], now) implies #[trigger] stale@.contains(x) by {
            assert(ids@.to_set().contains(x));
        }
        let mut records: HashMap<u64, UserSecurityRecord> = HashMap::new();
        std::mem::swap(&mut records, &mut self.records);
        let mut k: usize = 0;
        assert(stale@.take(0) =~= Seq::<u64>::empty());
        while k < stale.len()
            invariant
                k <= stale.len(),
                forall|x: u64| #[trigger]
                    stale@.contains(x) ==> m0.contains_key(x) && !worth_keeping(cfg, m0[x], now),
                forall|x: u64| m0.contains_key(x) && !worth_keeping(cfg, m0[x], now) ==> #[trigger] stale@.contains(x),
                forall|x: u64| #[trigger]
                    records@.contains_key(x) <==> m0.contains_key(x) && !stale@.take(k as int).contains(x),
                forall|x: u64| #[trigger] records@.contains_key(x) ==> records@[x] == m0[x],
            decreases stale.len() - k,
        {
            records.remove(&stale[k]);
            assert(stale@.take(k + 1) =~= stale@.take(k as int).push(stale@[k as int]));
            assert forall|x: u64| #[trigger] stale@.take(k + 1).contains(x) == (stale@.take(
                k as int,
            ).contains(x) || x == stale@[k as int]) by {
                if stale@.take(k + 1).contains(x) && x != stale@[k as int] {
                    let j = choose|j: int| 0 <= j < k + 1 && #[trigger] stale@.take(k + 1)[j] == x;
                    assert(stale@.take(k as int)[j] == x);
                }
                if stale@.take(k as int).contains(x) {
                    let j = choose|j: int| 0 <= j < k && #[trigger] stale@.take(k as int)[j] == x;
                    assert(stale@.take(k + 1)[j] == x);
                }
                if x == stale@[k as int] {
                    assert(stale@.take(k + 1)[k as int] == x);
                }
            }
            k += 1;
        }
        assert(stale@.take(stale.len() as int) =~= stale@);
        std::mem::swap(&mut records, &mut self.records);
    }
}

impl Default for SecurityTracker {
    /// A tracker with the default configuration and no records.
    fn default() -> (r: Self)
        ensures
            r.config_view() == (SecurityConfig {
                strike_threshold: 30,
                max_strikes: 3,
                block_duration_ms: 300_000,
                strike_window_ms: 3_600_000,
            }),
            r.records() == Map::<u64, UserSecurityRecord>::empty(),
    {
        SecurityTracker::new(SecurityConfig::default())
    }
}

} // verus!
