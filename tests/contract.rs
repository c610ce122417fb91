use std::collections::HashMap;

use liquid_staking::address::Address;
use liquid_staking::contract::{Asset, LiquidStakingContract, TokenAction};
use liquid_staking::errors::Error;

fn addr(name: &str) -> Address {
    Address::new(name.as_bytes().to_vec())
}

/// Balances of the three assets, per holder, as the token service keeps them.
struct Ledger {
    balances: HashMap<(Asset, Vec<u8>), i128>,
}

impl Ledger {
    fn new() -> Ledger {
        Ledger { balances: HashMap::new() }
    }

    fn balance(&self, asset: Asset, who: &Address) -> i128 {
        *self.balances.get(&(asset, who.bytes.clone())).unwrap_or(&0)
    }

    fn mint(&mut self, asset: Asset, who: &Address, amount: i128) {
        *self.balances.entry((asset, who.bytes.clone())).or_insert(0) += amount;
    }

    fn apply(&mut self, pool: &Address, caller: &Address, action: TokenAction) {
        match action {
            TokenAction::TransferToPool { asset, amount } => {
                assert!(self.balance(asset, caller) >= amount);
                self.mint(asset, caller, -amount);
                self.mint(asset, pool, amount);
            }
            TokenAction::TransferFromPool { asset, amount } => {
                assert!(self.balance(asset, pool) >= amount);
                self.mint(asset, pool, -amount);
                self.mint(asset, caller, amount);
            }
            TokenAction::MintShares { amount } => self.mint(Asset::Share, caller, amount),
            TokenAction::BurnShares { amount } => {
                assert!(self.balance(Asset::Share, caller) >= amount);
                self.mint(Asset::Share, caller, -amount);
            }
        }
    }
}

fn create_liquid_staking_contract() -> LiquidStakingContract {
    LiquidStakingContract::new(addr("pool"))
}

fn initialized_pool(owner: &Address) -> LiquidStakingContract {
    let mut pool = create_liquid_staking_contract();
    pool.initialize(addr("base"), addr("reward"), owner.clone(), addr("share")).unwrap();
    pool
}

#[test]
fn test_contract_initialize() {
    let owner = addr("owner");
    let base_token = addr("base");
    let reward_token = addr("reward");
    let mut pool = create_liquid_staking_contract();

    let initialized_state = pool
        .initialize(base_token.clone(), reward_token.clone(), owner.clone(), addr("share"))
        .unwrap();

    assert!(initialized_state.initialized);
    assert_eq!(initialized_state.owner, owner);
    assert_eq!(initialized_state.base_token, base_token);
    assert_ne!(initialized_state.share_token, base_token);
}

#[test]
fn test_staker_add_funds() {
    let owner = addr("owner");
    let staker = addr("staker");
    let mut ledger = Ledger::new();
    let mut pool = initialized_pool(&owner);

    ledger.mint(Asset::Reward, &owner, 1000);
    let action = pool.add_reward_funds(&owner, 1000).unwrap();
    ledger.apply(&pool.address, &owner, action);

    let global_state = pool.get_global_state();
    assert_eq!(global_state.token_supply, 0);

    ledger.mint(Asset::Base, &staker, 1000);
    let amount = 1000 as i128;
    let balance = ledger.balance(Asset::Base, &staker);
    for action in pool.stake(staker.clone(), amount, balance, 10).unwrap() {
        ledger.apply(&pool.address, &staker, action);
    }

    let user_position = pool.get_user_position(&staker);
    assert!(user_position.balance > 0);
    assert_eq!(user_position.balance, amount);
    assert_eq!(pool.get_global_state().token_supply, amount);
}

#[test]
fn test_unstake_funds() {
    let owner = addr("owner");
    let staker = addr("staker");
    let mut ledger = Ledger::new();
    let mut pool = initialized_pool(&owner);

    ledger.mint(Asset::Reward, &owner, 1000);
    let action = pool.add_reward_funds(&owner, 1000).unwrap();
    ledger.apply(&pool.address, &owner, action);

    ledger.mint(Asset::Base, &staker, 1000);
    let amount = 1000 as i128;
    let balance = ledger.balance(Asset::Base, &staker);
    for action in pool.stake(staker.clone(), amount, balance, 10).unwrap() {
        ledger.apply(&pool.address, &staker, action);
    }
    let user_pos1 = pool.get_user_position(&staker);

    let shares = ledger.balance(Asset::Share, &staker);
    for action in pool.unstake(&staker, amount, shares, 10).unwrap() {
        ledger.apply(&pool.address, &staker, action);
    }
    let user_pos2 = pool.get_user_position(&staker);

    assert!(user_pos1.balance > 0);
    assert_eq!(user_pos1.balance, amount);
    assert!(user_pos2.balance == 0);
}

#[test]
fn test_contract_owner_add_funds() {
    let owner = addr("owner");
    let mut ledger = Ledger::new();
    let pool = initialized_pool(&owner);

    ledger.mint(Asset::Reward, &owner, 1000);
    let action = pool.add_reward_funds(&owner, 1000).unwrap();
    ledger.apply(&pool.address, &owner, action);

    let state = pool.get_staking_state().unwrap();
    let balance = ledger.balance(Asset::Reward, &pool.address);

    assert!(state.initialized);
    assert_eq!(state.owner, owner);
    assert_eq!(state.base_token, addr("base"));
    assert_eq!(state.reward_token, addr("reward"));
    assert_ne!(state.share_token, addr("base"));
    assert_eq!(balance, 1000);
}

#[test]
fn test_contract_owner_add_funds_not_owner() {
    let owner = addr("owner");
    let pool = initialized_pool(&owner);
    let fake_owner = addr("fake_owner");
    assert_eq!(pool.add_reward_funds(&fake_owner, 1000), Err(Error::NotOwner));
}

#[test]
fn test_contract_owner_add_funds_contract_not_initialized() {
    let owner = addr("owner");
    let pool = create_liquid_staking_contract();
    assert_eq!(pool.add_reward_funds(&owner, 1000), Err(Error::NotInitialized));
}

#[test]
fn test_get_staking_state() {
    let owner = addr("owner");
    let pool = initialized_pool(&owner);

    let state = pool.get_staking_state().unwrap();

    assert!(state.initialized);
    assert_eq!(state.owner, owner);
    assert_eq!(state.base_token, addr("base"));
    assert_eq!(state.reward_token, addr("reward"));
    assert_ne!(state.share_token, addr("base"));
}

#[test]
fn test_get_staking_state_not_initialized() {
    let pool = create_liquid_staking_contract();
    assert!(matches!(pool.get_staking_state(), Err(Error::NotInitialized)));
}

#[test]
fn test_contract_initialize_twice() {
    let owner = addr("owner");
    let mut pool = create_liquid_staking_contract();
    assert!(pool.initialize(owner.clone(), owner.clone(), owner.clone(), addr("share")).is_ok());
    let second = pool.initialize(owner.clone(), owner.clone(), owner.clone(), addr("share"));
    assert!(matches!(second, Err(Error::AlreadyInitialized)));
}

#[test]
fn test_set_owner() {
    let owner = addr("owner");
    let mut pool = initialized_pool(&owner);
    let new_owner = addr("new_owner");
    assert_eq!(pool.set_owner(new_owner.clone(), &owner), Ok(()));
    assert_eq!(pool.get_staking_state().unwrap().owner, new_owner);
}

#[test]
fn test_set_owner_not_owner() {
    let owner = addr("owner");
    let mut pool = initialized_pool(&owner);
    let new_owner = addr("new_owner");
    let non_owner = addr("non_owner");
    assert_eq!(pool.set_owner(new_owner, &non_owner), Err(Error::NotOwner));
    assert_eq!(pool.get_staking_state().unwrap().owner, owner);
}

#[test]
fn test_set_owner_not_initialized() {
    let owner = addr("owner");
    let new_owner = addr("new_owner");
    let mut pool = create_liquid_staking_contract();
    assert_eq!(pool.set_owner(new_owner, &owner), Err(Error::NotInitialized));
}
