//! Properties of the tracker's decisions over sequences of messages.

use vstd::prelude::*;
use crate::tracker::{
    elapsed, evaluate, fresh_record, message_allowance, RateLimitReason, SecurityCheckResult,
    SecurityConfig, UserSecurityRecord, RATE_WINDOW_MS,
};

verus! {

/// The record after messages of risk `risk` at each of `times`, starting
/// from `rec`, and the decision on each.
pub open spec fn replay(
    cfg: SecurityConfig,
    rec: UserSecurityRecord,
    risk: u8,
    times: Seq<u64>,
) -> (UserSecurityRecord, Seq<SecurityCheckResult>)
    decreases times.len(),
{
    if times.len() == 0 {
        (rec, Seq::empty())
    } else {
        let (before, decisions) = replay(cfg, rec, risk, times.drop_last());
        let (after, decision) = evaluate(cfg, before, risk, times.last());
        (after, decisions.push(decision))
    }
}

/// The record of a new identity after `k` allowed messages, the last at `last`.
pub open spec fn quiet_record(first: u64, last: u64, k: u32) -> UserSecurityRecord {
    UserSecurityRecord {
        strikes: 0,
        last_strike: first,
        blocked_until: None,
        total_violations: 0,
        last_message: last,
        messages_in_window: k,
        rate_limit_until: None,
    }
}

proof fn lemma_quiet_run(cfg: SecurityConfig, risk: u8, times: Seq<u64>, k: int)
    requires
        risk < cfg.strike_threshold,
        1 <= k <= 20,
        k <= times.len(),
        forall|i: int, j: int| 0 <= i <= j < times.len() ==> times[i] <= times[j],
        times.last() - times[0] <= RATE_WINDOW_MS,
    ensures
        replay(cfg, fresh_record(times[0]), risk, times.take(k)).0 == quiet_record(
            times[0],
            times[k - 1],
            k as u32,
        ),
        replay(cfg, fresh_record(times[0]), risk, times.take(k)).1 == Seq::new(
            k as nat,
            |i: int| SecurityCheckResult::Allowed,
        ),
    decreases k,
{
    let ts = times.take(k);
    assert(ts.drop_last() =~= times.take(k - 1));
    if k == 1 {
        assert(times.take(0) =~= Seq::<u64>::empty());
        assert(replay(cfg, fresh_record(times[0]), risk, times.take(0)).1 =~= Seq::<SecurityCheckResult>::empty());
    } else {
        lemma_quiet_run(cfg, risk, times, k - 1);
        assert(times[k - 2] <= times[k - 1] <= times.last());
    }
    assert(replay(cfg, fresh_record(times[0]), risk, ts).1 =~= Seq::new(
        k as nat,
        |i: int| SecurityCheckResult::Allowed,
    ));
}

/// A new identity that sends 21 messages below the strike threshold within
/// 60 seconds has the first 20 allowed and the 21st rate limited for too
/// many messages, for 30 seconds.
pub proof fn lemma_new_identity_frequency_limit(cfg: SecurityConfig, risk: u8, times: Seq<u64>)
    requires
        risk < cfg.strike_threshold,
        times.len() == 21,
        forall|i: int, j: int| 0 <= i <= j < times.len() ==> times[i] <= times[j],
        times[20] - times[0] <= RATE_WINDOW_MS,
    ensures
        forall|i: int| 0 <= i < 20 ==> replay(cfg, fresh_record(times[0]), risk, times).1[i]
            == SecurityCheckResult::Allowed,
        replay(cfg, fresh_record(times[0]), risk, times).1[20] == (SecurityCheckResult::RateLimited {
            remaining_seconds: 30,
            reason: RateLimitReason::TooManyMessages,
        }),
{
    lemma_quiet_run(cfg, risk, times, 20);
    assert(times.drop_last() =~= times.take(20));
}

/// A record with the rate limit lifted.
pub open spec fn without_rate_limit(rec: UserSecurityRecord) -> UserSecurityRecord {
    UserSecurityRecord { rate_limit_until: None, ..rec }
}

/// With three strikes to a block, three messages at or above the threshold
/// from a new identity, the rate limit lifted between them, bring two
/// warnings and then the block; a message before the block runs out finds
/// the identity blocked.
pub proof fn lemma_three_strikes_block(cfg: SecurityConfig, risk: u8, t: Seq<u64>)
    requires
        cfg.max_strikes == 3,
        risk >= cfg.strike_threshold,
        t.len() == 4,
        t[0] <= t[1] <= t[2] <= t[3],
        t[2] - t[0] <= cfg.strike_window_ms,
        t[3] - t[2] < cfg.block_duration_ms,
        t[2] + cfg.block_duration_ms <= u64::MAX,
    ensures
        ({
            let (r1, d1) = evaluate(cfg, fresh_record(t[0]), risk, t[0]);
            let (r2, d2) = evaluate(cfg, without_rate_limit(r1), risk, t[1]);
            let (r3, d3) = evaluate(cfg, without_rate_limit(r2), risk, t[2]);
            &&& d1 == SecurityCheckResult::Warning { strikes: 1, max_strikes: 3 }
            &&& d2 == SecurityCheckResult::Warning { strikes: 2, max_strikes: 3 }
            &&& d3 == SecurityCheckResult::JustBlocked {
                duration_seconds: (cfg.block_duration_ms / 1000) as u64,
            }
            &&& evaluate(cfg, r3, risk, t[3]).1 == SecurityCheckResult::Blocked {
                remaining_seconds: ((t[2] + cfg.block_duration_ms - t[3]) / 1000) as u64,
            }
        }),
{
}

/// Gates that a message passes before the strike rules apply: no block
/// in force, no rate limit in force, and the message allowance not used up.
pub open spec fn reaches_strike_rules(rec: UserSecurityRecord, now: u64) -> bool {
    &&& (rec.blocked_until is None || now >= rec.blocked_until.unwrap())
    &&& (rec.rate_limit_until is None || now >= rec.rate_limit_until.unwrap())
    &&& (elapsed(now, rec.last_message) > RATE_WINDOW_MS || rec.messages_in_window
        < message_allowance(rec.total_violations))
}

/// Strikes older than the strike window are cleared before the threshold
/// applies: a message at or above it is the first strike of a new count,
/// and one below it leaves no strike.
pub proof fn lemma_stale_strikes_cleared(
    cfg: SecurityConfig,
    rec: UserSecurityRecord,
    risk: u8,
    now: u64,
)
    requires
        rec.strikes > 0,
        elapsed(now, rec.last_strike) > cfg.strike_window_ms,
        reaches_strike_rules(rec, now),
    ensures
        risk >= cfg.strike_threshold && cfg.max_strikes > 1 ==> evaluate(cfg, rec, risk, now).1
            == (SecurityCheckResult::Warning { strikes: 1, max_strikes: cfg.max_strikes }),
        risk >= cfg.strike_threshold && cfg.max_strikes <= 1 ==> evaluate(
            cfg,
            rec,
            risk,
            now,
        ).1 is JustBlocked,
        risk < cfg.strike_threshold ==> evaluate(cfg, rec, risk, now).1
            == SecurityCheckResult::Allowed && evaluate(cfg, rec, risk, now).0.strikes == 0,
{
}

/// After `unblock_user`, a message below the strike threshold is allowed,
/// provided no rate limit is in force and the message allowance is not
/// used up.
pub proof fn lemma_unblock_then_allowed(
    cfg: SecurityConfig,
    rec: UserSecurityRecord,
    risk: u8,
    now: u64,
)
    requires
        risk < cfg.strike_threshold,
        rec.rate_limit_until is None || now >= rec.rate_limit_until.unwrap(),
        elapsed(now, rec.last_message) > RATE_WINDOW_MS || rec.messages_in_window
            < message_allowance(rec.total_violations),
    ensures
        evaluate(cfg, UserSecurityRecord { blocked_until: None, strikes: 0, ..rec }, risk, now).1
            == SecurityCheckResult::Allowed,
{
}


/// A decision never lowers the count of violations, and a block that it
/// sets ends after `now` when the block length is positive and the clock
/// has room for it.
pub proof fn lemma_decision_invariants(
    cfg: SecurityConfig,
    rec: UserSecurityRecord,
    risk: u8,
    now: u64,
)
    ensures
        evaluate(cfg, rec, risk, now).0.total_violations >= rec.total_violations,
        evaluate(cfg, rec, risk, now).1 is JustBlocked && cfg.block_duration_ms > 0 && now
            + cfg.block_duration_ms <= u64::MAX ==> evaluate(cfg, rec, risk, now).0.blocked_until
            == Some((now + cfg.block_duration_ms) as u64) && now < evaluate(
            cfg,
            rec,
            risk,
            now,
        ).0.blocked_until.unwrap(),
{
}

} // verus!
