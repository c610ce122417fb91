use vstd::prelude::*;

use crate::address::Address;

verus! {

/// Pool-wide reward bookkeeping.
#[derive(Clone, Copy, Debug, PartialEq, Eq, Structural)]
pub struct StakingGlobals {
    /// Sum of the balances of all depositors.
    pub token_supply: i128,
    /// Reward per staked unit since the pool began, scaled by `SCALE`.
    pub reward_per_token_stored: i128,
    /// Ledger time, in seconds, of the last checkpoint.
    pub last_updated_time: i128,
}

/// The pool's configuration: its three assets and its owner.
#[derive(Clone, Debug)]
pub struct StakingContractState {
    /// Asset paid out to depositors as reward.
    pub reward_token: Address,
    /// Asset that depositors lock in the pool.
    pub base_token: Address,
    /// Receipt asset minted one for one against the base asset.
    pub share_token: Address,
    /// Identity allowed to fund the pool and to hand ownership over.
    pub owner: Address,
    pub initialized: bool,
}

/// Key under which a depositor's record is kept.
#[derive(Clone, Debug)]
pub enum UserInfoRegistry {
    UserRecord(Address),
}

/// One depositor's position.
#[derive(Clone, Debug)]
pub struct UserRecord {
    pub address: Address,
    /// Base asset staked.
    pub balance: i128,
    /// Reward per staked unit at this record's last checkpoint.
    pub rewards_per_token_paid: i128,
    /// Reward earned up to the last checkpoint and not yet claimed.
    pub rewards_to_claim: i128,
}

/// The values that stand for a record or a configuration never written.
pub struct StorageClient;

impl StorageClient {
    pub open spec fn get_default_global_state_spec() -> StakingGlobals {
        StakingGlobals { token_supply: 0, reward_per_token_stored: 0, last_updated_time: 0 }
    }

    pub fn get_default_global_state() -> (r: StakingGlobals)
        ensures
            r.token_supply == 0,
            r.reward_per_token_stored == 0,
            r.last_updated_time == 0,
    {
        StakingGlobals { token_supply: 0, reward_per_token_stored: 0, last_updated_time: 0 }
    }

    /// An uninitialized configuration in which every asset and the owner are
    /// the pool contract itself.
    pub fn get_default_state(contract: &Address) -> (r: StakingContractState)
        ensures
            r.reward_token@ == contract@,
            r.base_token@ == contract@,
            r.share_token@ == contract@,
            r.owner@ == contract@,
            !r.initialized,
    {
        StakingContractState {
            reward_token: contract.duplicate(),
            base_token: contract.duplicate(),
            share_token: contract.duplicate(),
            owner: contract.duplicate(),
            initialized: false,
        }
    }

    pub fn get_default_user(user: Address) -> (r: UserRecord)
        ensures
            r.address == user,
            r.balance == 0,
            r.rewards_per_token_paid == 0,
            r.rewards_to_claim == 0,
    {
        UserRecord { address: user, balance: 0, rewards_per_token_paid: 0, rewards_to_claim: 0 }
    }
}

impl StakingContractState {
    /// A second value with the same assets, owner and flag.
    pub fn duplicate(&self) -> (r: StakingContractState)
        ensures
            r.reward_token@ == self.reward_token@,
            r.base_token@ == self.base_token@,
            r.share_token@ == self.share_token@,
            r.owner@ == self.owner@,
            r.initialized == self.initialized,
    {
        StakingContractState {
            reward_token: self.reward_token.duplicate(),
            base_token: self.base_token.duplicate(),
            share_token: self.share_token.duplicate(),
            owner: self.owner.duplicate(),
            initialized: self.initialized,
        }
    }
}

impl UserRecord {
    /// A second value with the same identity and amounts.
    pub fn duplicate(&self) -> (r: UserRecord)
        ensures
            r.address@ == self.address@,
            r.balance == self.balance,
            r.rewards_per_token_paid == self.rewards_per_token_paid,
            r.rewards_to_claim == self.rewards_to_claim,
    {
        UserRecord {
            address: self.address.duplicate(),
            balance: self.balance,
            rewards_per_token_paid: self.rewards_per_token_paid,
            rewards_to_claim: self.rewards_to_claim,
        }
    }
}

} // verus!
