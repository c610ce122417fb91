use vstd::prelude::*;

use crate::storage::{StakingGlobals, UserRecord};

verus! {

/// Fixed-point scale of reward-per-share values. Divisions by it round down.
pub const SCALE: i128 = 10_000_000;

/// Reward units that the whole pool earns per second.
pub const REWARD_RATE: i128 = 1;

/// Reward, scaled, that the pool has earned since the last checkpoint.
pub open spec fn accrued_since(g: StakingGlobals, now: int) -> int {
    (now - g.last_updated_time) * REWARD_RATE * SCALE
}

/// Reward per staked unit at time `now`: the stored value, plus the reward of
/// the elapsed interval spread over the staked supply (nothing when no
/// supply is staked).
pub open spec fn spec_reward_per_token(g: StakingGlobals, now: int) -> int {
    if g.token_supply == 0 {
        g.reward_per_token_stored as int
    } else {
        g.reward_per_token_stored + accrued_since(g, now) / (g.token_supply as int)
    }
}

/// The time `now` lies at or after the last checkpoint, no supply is negative,
/// and the reward per staked unit at `now` fits in `i128`.
pub open spec fn reward_per_token_fits(g: StakingGlobals, now: int) -> bool {
    &&& g.last_updated_time <= now
    &&& g.token_supply >= 0
    &&& (g.token_supply == 0 || (accrued_since(g, now) <= i128::MAX && spec_reward_per_token(g, now)
        <= i128::MAX))
}

/// A depositor's reward at reward-per-unit `rpt`: what its balance earned
/// since its last checkpoint, rounded down, plus what it had not claimed.
pub open spec fn spec_earned(u: UserRecord, rpt: int) -> int {
    u.balance * (rpt - u.rewards_per_token_paid) / (SCALE as int) + u.rewards_to_claim
}

/// The balance is not negative, `rpt` is not below the value of the record's
/// last checkpoint, and the reward at `rpt` fits in `i128`.
pub open spec fn earned_fits(u: UserRecord, rpt: int) -> bool {
    &&& u.balance >= 0
    &&& u.rewards_per_token_paid <= rpt <= i128::MAX
    &&& rpt - u.rewards_per_token_paid <= i128::MAX
    &&& u.balance * (rpt - u.rewards_per_token_paid) <= i128::MAX
    &&& spec_earned(u, rpt) <= i128::MAX
}

/// The pool totals after a checkpoint at `now`.
pub open spec fn checkpoint_globals(g: StakingGlobals, now: int) -> StakingGlobals {
    StakingGlobals {
        reward_per_token_stored: spec_reward_per_token(g, now) as i128,
        last_updated_time: now as i128,
        ..g
    }
}

/// A depositor's record after a checkpoint at `now`: its reward settled up to
/// `now` and its reference point moved to the current reward per unit.
pub open spec fn checkpoint_user(g: StakingGlobals, u: UserRecord, now: int) -> UserRecord {
    let rpt = spec_reward_per_token(g, now);
    UserRecord {
        rewards_to_claim: spec_earned(u, rpt) as i128,
        rewards_per_token_paid: rpt as i128,
        ..u
    }
}

/// A checkpoint at `now` can be computed without overflow.
pub open spec fn checkpoint_fits(g: StakingGlobals, u: UserRecord, now: int) -> bool {
    &&& reward_per_token_fits(g, now)
    &&& earned_fits(u, spec_reward_per_token(g, now))
}

pub proof fn lemma_reward_per_token_grows(g: StakingGlobals, now: int)
    requires
        g.last_updated_time <= now,
        g.token_supply >= 0,
    ensures
        spec_reward_per_token(g, now) >= g.reward_per_token_stored,
{
    if g.token_supply != 0 {
        assert(accrued_since(g, now) >= 0) by (nonlinear_arith)
            requires
                now - g.last_updated_time >= 0,
                accrued_since(g, now) == (now - g.last_updated_time) * REWARD_RATE * SCALE,
        ;
        assert(accrued_since(g, now) / (g.token_supply as int) >= 0) by (nonlinear_arith)
            requires
                accrued_since(g, now) >= 0,
                g.token_supply > 0,
        ;
    }
}

/// Reward per staked unit at time `now`.
pub fn reward_per_token(globals: &StakingGlobals, now: i128) -> (r: i128)
    requires
        reward_per_token_fits(*globals, now as int),
    ensures
        r == spec_reward_per_token(*globals, now as int),
        r >= globals.reward_per_token_stored,
        globals.token_supply == 0 ==> r == globals.reward_per_token_stored,
{
    proof {
        lemma_reward_per_token_grows(*globals, now as int);
    }
    if globals.token_supply == 0 {
        globals.reward_per_token_stored
    } else {
        let elapsed: i128 = now - globals.last_updated_time;
        assert(0 <= elapsed * REWARD_RATE <= elapsed * REWARD_RATE * SCALE) by (nonlinear_arith)
            requires
                elapsed >= 0,
        ;
        let accrued: i128 = elapsed * REWARD_RATE * SCALE;
        assert(accrued / globals.token_supply >= 0) by (nonlinear_arith)
            requires
                accrued >= 0,
                globals.token_supply > 0,
        ;
        globals.reward_per_token_stored + accrued / globals.token_supply
    }
}

/// Reward that a depositor can claim once reward per unit stands at `rpt`.
pub fn earned(user: &UserRecord, rpt: i128) -> (r: i128)
    requires
        earned_fits(*user, rpt as int),
    ensures
        r == spec_earned(*user, rpt as int),
        r >= user.rewards_to_claim,
        user.balance == 0 ==> r == user.rewards_to_claim,
{
    let delta: i128 = rpt - user.rewards_per_token_paid;
    assert(user.balance * delta >= 0) by (nonlinear_arith)
        requires
            user.balance >= 0,
            delta >= 0,
    ;
    let share: i128 = user.balance * delta;
    assert(share / SCALE >= 0) by (nonlinear_arith)
        requires
            share >= 0,
    ;
    share / SCALE + user.rewards_to_claim
}

/// Settles the pool and one depositor up to time `now`: the stored reward per
/// unit advances to its value at `now`, and the depositor's unclaimed reward
/// takes in what its balance earned since its own last checkpoint.
pub fn update_reward(globals: &mut StakingGlobals, user: &mut UserRecord, now: i128)
    requires
        checkpoint_fits(*old(globals), *old(user), now as int),
    ensures
        *final(globals) == checkpoint_globals(*old(globals), now as int),
        *final(user) == checkpoint_user(*old(globals), *old(user), now as int),
        final(globals).reward_per_token_stored >= old(globals).reward_per_token_stored,
        final(globals).last_updated_time >= old(globals).last_updated_time,
{
    let rpt = reward_per_token(globals, now);
    globals.reward_per_token_stored = rpt;
    globals.last_updated_time = now;
    user.rewards_to_claim = earned(user, rpt);
    user.rewards_per_token_paid = rpt;
}

/// A second checkpoint at the same time changes neither the pool totals nor
/// the depositor's record.
pub proof fn lemma_checkpoint_idempotent(g: StakingGlobals, u: UserRecord, now: int)
    requires
        i128::MIN <= now <= i128::MAX,
        i128::MIN <= spec_reward_per_token(g, now) <= i128::MAX,
        i128::MIN <= spec_earned(u, spec_reward_per_token(g, now)) <= i128::MAX,
    ensures
        checkpoint_globals(checkpoint_globals(g, now), now) == checkpoint_globals(g, now),
        checkpoint_user(checkpoint_globals(g, now), checkpoint_user(g, u, now), now)
            == checkpoint_user(g, u, now),
{
    let g1 = checkpoint_globals(g, now);
    assert(accrued_since(g1, now) == 0);
    assert(spec_reward_per_token(g1, now) == g1.reward_per_token_stored);
    let u1 = checkpoint_user(g, u, now);
    assert(u1.balance * (spec_reward_per_token(g1, now) - u1.rewards_per_token_paid) == 0);
}

/// Both the stored reward per unit and the time of the last checkpoint only
/// grow at a checkpoint.
pub proof fn lemma_checkpoint_monotone(g: StakingGlobals, now: int)
    requires
        reward_per_token_fits(g, now),
        now <= i128::MAX,
    ensures
        checkpoint_globals(g, now).reward_per_token_stored >= g.reward_per_token_stored,
        checkpoint_globals(g, now).last_updated_time >= g.last_updated_time,
{
    lemma_reward_per_token_grows(g, now);
}

/// Whether a checkpoint of `user` at time `now` can be computed without
/// overflow; the host aborts an operation for which it cannot.
pub fn checkpoint_in_range(globals: &StakingGlobals, user: &UserRecord, now: i128) -> (r: bool)
    ensures
        r == checkpoint_fits(*globals, *user, now as int),
{
    if now < globals.last_updated_time || globals.token_supply < 0 {
        return false;
    }
    let rpt: i128 = if globals.token_supply == 0 {
        globals.reward_per_token_stored
    } else {
        let elapsed: i128 = match now.checked_sub(globals.last_updated_time) {
            Some(e) => e,
            None => {
                let ghost e = now - globals.last_updated_time;
                assert(e * REWARD_RATE * SCALE > i128::MAX) by (nonlinear_arith)
                    requires
                        e > i128::MAX,
                ;
                return false;
            },
        };
        let accrued: i128 = match elapsed.checked_mul(REWARD_RATE) {
            Some(a) => match a.checked_mul(SCALE) {
                Some(b) => b,
                None => {
                    return false;
                },
            },
            None => {
                assert(elapsed * REWARD_RATE * SCALE > i128::MAX) by (nonlinear_arith)
                    requires
                        elapsed * REWARD_RATE > i128::MAX,
                ;
                return false;
            },
        };
        assert(accrued / globals.token_supply >= 0) by (nonlinear_arith)
            requires
                accrued >= 0,
                globals.token_supply > 0,
        ;
        match globals.reward_per_token_stored.checked_add(accrued / globals.token_supply) {
            Some(v) => v,
            None => {
                return false;
            },
        }
    };
    if user.balance < 0 || rpt < user.rewards_per_token_paid {
        return false;
    }
    let delta: i128 = match rpt.checked_sub(user.rewards_per_token_paid) {
        Some(d) => d,
        None => {
            return false;
        },
    };
    let share: i128 = match user.balance.checked_mul(delta) {
        Some(m) => m,
        None => {
            return false;
        },
    };
    assert(share / SCALE >= 0) by (nonlinear_arith)
        requires
            share >= 0,
    ;
    match (share / SCALE).checked_add(user.rewards_to_claim) {
        Some(_) => true,
        None => false,
    }
}

} // verus!
