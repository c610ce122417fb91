use vstd::prelude::*;

use crate::accrual::{
    checkpoint_fits, checkpoint_globals, checkpoint_user, spec_earned, spec_reward_per_token,
    earned, reward_per_token, update_reward, lemma_reward_per_token_grows, checkpoint_in_range,
};
use crate::address::Address;
use crate::errors::Error;
use crate::storage::{StakingContractState, StakingGlobals, StorageClient, UserRecord};

verus! {

/// The three assets a pool handles.
#[derive(Clone, Copy, Debug, PartialEq, Eq, Hash, Structural)]
pub enum Asset {
    Base,
    Reward,
    Share,
}

/// Token work that the host carries out once an operation has succeeded.
/// The counterparty is always the identity on whose behalf the operation ran.
#[derive(Clone, Copy, Debug, PartialEq, Eq, Structural)]
pub enum TokenAction {
    /// Move `amount` of `asset` from the caller into the pool's custody.
    TransferToPool { asset: Asset, amount: i128 },
    /// Move `amount` of `asset` from the pool's custody to the caller.
    TransferFromPool { asset: Asset, amount: i128 },
    /// Create `amount` share units for the caller.
    MintShares { amount: i128 },
    /// Destroy `amount` of the caller's share units.
    BurnShares { amount: i128 },
}

/// Sum of the balances of a sequence of depositor records.
pub open spec fn balances(s: Seq<UserRecord>) -> int
    decreases s.len(),
{
    if s.len() == 0 {
        0
    } else {
        balances(s.drop_last()) + s.last().balance
    }
}

pub proof fn lemma_balances_push(s: Seq<UserRecord>, r: UserRecord)
    ensures
        balances(s.push(r)) == balances(s) + r.balance,
{
    assert(s.push(r).drop_last() =~= s);
}

pub proof fn lemma_balances_update(s: Seq<UserRecord>, i: int, r: UserRecord)
    requires
        0 <= i < s.len(),
    ensures
        balances(s.update(i, r)) == balances(s) - s[i].balance + r.balance,
    decreases s.len(),
{
    if i < s.len() - 1 {
        assert(s.update(i, r).drop_last() =~= s.drop_last().update(i, r));
        lemma_balances_update(s.drop_last(), i, r);
    } else {
        assert(s.update(i, r).drop_last() =~= s.drop_last());
    }
}

pub proof fn lemma_balances_remove(s: Seq<UserRecord>, i: int)
    requires
        0 <= i < s.len(),
    ensures
        balances(s.remove(i)) == balances(s) - s[i].balance,
    decreases s.len(),
{
    if i < s.len() - 1 {
        assert(s.remove(i).drop_last() =~= s.drop_last().remove(i));
        lemma_balances_remove(s.drop_last(), i);
        assert(s.remove(i).last() == s.last());
    } else {
        assert(s.remove(i) =~= s.drop_last());
    }
}

pub proof fn lemma_balances_nonneg(s: Seq<UserRecord>)
    requires
        forall|i: int| 0 <= i < s.len() ==> #[trigger] s[i].balance >= 0,
    ensures
        balances(s) >= 0,
    decreases s.len(),
{
    if s.len() > 0 {
        assert(forall|i: int| 0 <= i < s.drop_last().len() ==> s.drop_last()[i] == s[i]);
        lemma_balances_nonneg(s.drop_last());
    }
}

/// The record that stands for a depositor who has none.
pub open spec fn default_record(user: Address) -> UserRecord {
    UserRecord { address: user, balance: 0, rewards_per_token_paid: 0, rewards_to_claim: 0 }
}

pub proof fn lemma_default_earns_nothing(user: Address, rpt: int)
    ensures
        spec_earned(default_record(user), rpt) == 0,
{
    let d = default_record(user);
    assert(d.balance * (rpt - d.rewards_per_token_paid) == 0) by (nonlinear_arith)
        requires
            d.balance == 0,
    ;
}

/// A staking pool: its configuration, its reward totals and the records of
/// its depositors, one per identity. Every operation takes the pool by
/// reference, reads the ledger time and any outside balance as arguments,
/// and hands back the token work that the host then performs.
pub struct LiquidStakingContract {
    /// The pool contract's own identity, which holds the custody balances.
    pub address: Address,
    pub state: StakingContractState,
    pub globals: StakingGlobals,
    pub users: Vec<UserRecord>,
}

impl LiquidStakingContract {
    /// No balance is negative, the records' balances add up to no more than
    /// the staked supply, no record is ahead of the stored reward per unit,
    /// and no identity has two records.
    pub open spec fn wf(&self) -> bool {
        &&& self.globals.token_supply >= 0
        &&& balances(self.users@) <= self.globals.token_supply
        &&& forall|i: int|
            0 <= i < self.users.len() ==> #[trigger] self.users[i].balance >= 0
                && self.users[i].rewards_per_token_paid <= self.globals.reward_per_token_stored
        &&& forall|i: int, j: int|
            0 <= i < j < self.users.len() ==> #[trigger] self.users[i].address@
                != #[trigger] self.users[j].address@
    }

    /// The pool's total equals the sum of its depositors' balances.
    pub open spec fn conserved(&self) -> bool {
        self.globals.token_supply == balances(self.users@)
    }

    pub open spec fn has_record(&self, a: Seq<u8>) -> bool {
        exists|i: int| 0 <= i < self.users.len() && #[trigger] self.users[i].address@ == a
    }

    pub open spec fn record_index(&self, a: Seq<u8>) -> int {
        choose|i: int| 0 <= i < self.users.len() && #[trigger] self.users[i].address@ == a
    }

    /// The depositor's record, or the default one where it has none.
    pub open spec fn record_for(&self, user: Address) -> UserRecord {
        if self.has_record(user@) {
            self.users[self.record_index(user@)]
        } else {
            default_record(user)
        }
    }

    /// A fresh pool of contract `address`: not initialized, nothing staked.
    pub fn new(address: Address) -> (r: LiquidStakingContract)
        ensures
            r.wf(),
            r.conserved(),
            r.address@ == address@,
            !r.state.initialized,
            r.globals == StorageClient::get_default_global_state_spec(),
            r.users@.len() == 0,
    {
        let state = StorageClient::get_default_state(&address);
        LiquidStakingContract {
            address,
            state,
            globals: StorageClient::get_default_global_state(),
            users: Vec::new(),
        }
    }

    fn find_user(&self, user: &Address) -> (r: Option<usize>)
        requires
            self.wf(),
        ensures
            match r {
                Some(i) => {
                    &&& i < self.users.len()
                    &&& self.users[i as int].address@ == user@
                    &&& self.has_record(user@)
                    &&& self.record_index(user@) == i
                },
                None => !self.has_record(user@),
            },
    {
        let mut i: usize = 0;
        while i < self.users.len()
            invariant
                self.wf(),
                0 <= i <= self.users.len(),
                forall|j: int| 0 <= j < i ==> #[trigger] self.users[j].address@ != user@,
            decreases self.users.len() - i,
        {
            if self.users[i].address.same(user) {
                proof {
                    let k = self.record_index(user@);
                    assert(self.users[i as int].address@ == user@);
                    assert(0 <= k < self.users.len() && self.users[k].address@ == user@);
                    if k < i {
                        assert(self.users[k].address@ != self.users[i as int].address@);
                    } else if k > i {
                        assert(self.users[i as int].address@ != self.users[k].address@);
                    }
                }
                return Some(i);
            }
            i = i + 1;
        }
        None
    }

    /// The depositor's record, or the default one where it has none.
    pub fn get_user_position(&self, user: &Address) -> (r: UserRecord)
        requires
            self.wf(),
        ensures
            r.address@ == user@,
            r.balance == self.record_for(*user).balance,
            r.rewards_per_token_paid == self.record_for(*user).rewards_per_token_paid,
            r.rewards_to_claim == self.record_for(*user).rewards_to_claim,
    {
        match self.find_user(user) {
            Some(i) => self.users[i].duplicate(),
            None => StorageClient::get_default_user(user.duplicate()),
        }
    }

    /// The configuration, once the pool is initialized.
    pub fn get_staking_state(&self) -> (r: Result<StakingContractState, Error>)
        ensures
            !self.state.initialized ==> r == Err::<StakingContractState, Error>(Error::NotInitialized),
            self.state.initialized ==> r is Ok,
            r matches Ok(s) ==> {
                &&& s.initialized
                &&& s.base_token@ == self.state.base_token@
                &&& s.reward_token@ == self.state.reward_token@
                &&& s.share_token@ == self.state.share_token@
                &&& s.owner@ == self.state.owner@
            },
    {
        if !self.state.initialized {
            return Err(Error::NotInitialized);
        }
        Ok(self.state.duplicate())
    }

    /// The pool's reward totals.
    pub fn get_global_state(&self) -> (r: StakingGlobals)
        ensures
            r == self.globals,
    {
        self.globals
    }

    /// Whether the pool can still be initialized. The host asks before it
    /// provisions the share asset.
    pub fn can_initialize(&self) -> (r: Result<(), Error>)
        ensures
            self.state.initialized ==> r == Err::<(), Error>(Error::AlreadyInitialized),
            !self.state.initialized ==> r == Ok::<(), Error>(()),
    {
        if self.state.initialized {
            Err(Error::AlreadyInitialized)
        } else {
            Ok(())
        }
    }

    /// Binds the pool to its assets and owner, once. `share_token` is the
    /// receipt asset that the host provisioned for this base/reward pair.
    pub fn initialize(
        &mut self,
        base_token: Address,
        reward_token: Address,
        owner: Address,
        share_token: Address,
    ) -> (r: Result<StakingContractState, Error>)
        requires
            old(self).wf(),
        ensures
            final(self).wf(),
            old(self).state.initialized ==> r == Err::<StakingContractState, Error>(
                Error::AlreadyInitialized,
            ),
            r is Err ==> *final(self) == *old(self),
            !old(self).state.initialized ==> {
                &&& r is Ok
                &&& final(self).state == (StakingContractState {
                    base_token,
                    reward_token,
                    owner,
                    share_token,
                    initialized: true,
                })
                &&& final(self).globals == old(self).globals
                &&& final(self).users == old(self).users
                &&& final(self).address == old(self).address
            },
            r matches Ok(s) ==> {
                &&& s.initialized
                &&& s.base_token@ == base_token@
                &&& s.reward_token@ == reward_token@
                &&& s.share_token@ == share_token@
                &&& s.owner@ == owner@
            },
    {
        if let Err(e) = self.can_initialize() {
            return Err(e);
        }
        self.state = StakingContractState {
            base_token,
            reward_token,
            owner,
            share_token,
            initialized: true,
        };
        Ok(self.state.duplicate())
    }

    /// Hands ownership from `current_owner` to `new_owner`.
    pub fn set_owner(&mut self, new_owner: Address, current_owner: &Address) -> (r: Result<(), Error>)
        requires
            old(self).wf(),
        ensures
            final(self).wf(),
            !old(self).state.initialized ==> r == Err::<(), Error>(Error::NotInitialized),
            old(self).state.initialized && old(self).state.owner@ != current_owner@ ==> r == Err::<
                (),
                Error,
            >(Error::NotOwner),
            r is Err ==> *final(self) == *old(self),
            old(self).state.initialized && old(self).state.owner@ == current_owner@ ==> {
                &&& r is Ok
                &&& final(self).state == (StakingContractState { owner: new_owner, ..old(self).state })
                &&& final(self).globals == old(self).globals
                &&& final(self).users == old(self).users
                &&& final(self).address == old(self).address
            },
    {
        if !self.state.initialized {
            return Err(Error::NotInitialized);
        }
        if !self.state.owner.same(current_owner) {
            return Err(Error::NotOwner);
        }
        self.state.owner = new_owner;
        Ok(())
    }

    /// Lets the owner move `amount` of the reward asset into the pool's
    /// custody. The reward rate does not change.
    pub fn add_reward_funds(&self, owner: &Address, amount: i128) -> (r: Result<TokenAction, Error>)
        ensures
            !self.state.initialized ==> r == Err::<TokenAction, Error>(Error::NotInitialized),
            self.state.initialized && self.state.owner@ != owner@ ==> r == Err::<TokenAction, Error>(
                Error::NotOwner,
            ),
            self.state.initialized && self.state.owner@ == owner@ ==> r == Ok::<TokenAction, Error>(
                TokenAction::TransferToPool { asset: Asset::Reward, amount },
            ),
    {
        if !self.state.initialized {
            return Err(Error::NotInitialized);
        }
        if !self.state.owner.same(owner) {
            return Err(Error::NotOwner);
        }
        Ok(TokenAction::TransferToPool { asset: Asset::Reward, amount })
    }

    /// The depositor's record after staking `amount` at time `now`: settled
    /// first, with the balance it had, then grown by `amount`.
    pub open spec fn staked_record(&self, user: Address, amount: int, now: int) -> UserRecord {
        let settled = checkpoint_user(self.globals, self.record_for(user), now);
        UserRecord { balance: (settled.balance + amount) as i128, ..settled }
    }

    /// Staking `amount` at time `now` stays within `i128`.
    pub open spec fn stake_fits(&self, user: Address, amount: int, now: int) -> bool {
        &&& checkpoint_fits(self.globals, self.record_for(user), now)
        &&& self.globals.token_supply + amount <= i128::MAX
        &&& self.record_for(user).balance + amount <= i128::MAX
    }

    /// Stakes `amount` of the base asset for `user`, who holds
    /// `base_balance` of it, at ledger time `now`. The pool and the depositor
    /// are settled first; then the amount joins both the depositor's balance
    /// and the pool's total. The host then moves the base asset into custody
    /// and mints as many shares.
    pub fn stake(&mut self, user: Address, amount: i128, base_balance: i128, now: i128) -> (r:
        Result<Vec<TokenAction>, Error>)
        requires
            old(self).wf(),
            amount >= 0 && old(self).state.initialized && base_balance >= amount ==> old(
                self,
            ).stake_fits(user, amount as int, now as int),
        ensures
            final(self).wf(),
            amount < 0 ==> r == Err::<Vec<TokenAction>, Error>(Error::InvalidAmount),
            amount >= 0 && !old(self).state.initialized ==> r == Err::<Vec<TokenAction>, Error>(
                Error::NotInitialized,
            ),
            amount >= 0 && old(self).state.initialized && base_balance < amount ==> r == Err::<
                Vec<TokenAction>,
                Error,
            >(Error::NotEnoughFunds),
            r is Err ==> *final(self) == *old(self),
            amount >= 0 && old(self).state.initialized && base_balance >= amount ==> {
                &&& r is Ok
                &&& r->Ok_0@ == seq![
                    TokenAction::TransferToPool { asset: Asset::Base, amount },
                    TokenAction::MintShares { amount },
                ]
                &&& final(self).globals == (StakingGlobals {
                    token_supply: (old(self).globals.token_supply + amount) as i128,
                    ..checkpoint_globals(old(self).globals, now as int)
                })
                &&& if old(self).has_record(user@) {
                    final(self).users@ == old(self).users@.update(
                        old(self).record_index(user@),
                        old(self).staked_record(user, amount as int, now as int),
                    )
                } else {
                    final(self).users@ == old(self).users@.push(
                        old(self).staked_record(user, amount as int, now as int),
                    )
                }
                &&& final(self).state == old(self).state
                &&& final(self).address == old(self).address
            },
            final(self).globals.reward_per_token_stored >= old(self).globals.reward_per_token_stored,
            final(self).globals.last_updated_time >= old(self).globals.last_updated_time,
            final(self).globals.token_supply - old(self).globals.token_supply == balances(
                final(self).users@,
            ) - balances(old(self).users@),
            old(self).conserved() ==> final(self).conserved(),
    {
        if amount < 0 {
            return Err(Error::InvalidAmount);
        }
        if !self.state.initialized {
            return Err(Error::NotInitialized);
        }
        if base_balance < amount {
            return Err(Error::NotEnoughFunds);
        }
        let ghost g0 = self.globals;
        let ghost u0 = self.users@;
        proof {
            lemma_reward_per_token_grows(g0, now as int);
        }
        match self.find_user(&user) {
            Some(i) => {
                let rec = &mut self.users[i];
                update_reward(&mut self.globals, rec, now);
                rec.balance = rec.balance + amount;
                proof {
                    lemma_balances_update(u0, i as int, self.users@[i as int]);
                }
            },
            None => {
                let mut rec = StorageClient::get_default_user(user);
                update_reward(&mut self.globals, &mut rec, now);
                rec.balance = rec.balance + amount;
                self.users.push(rec);
                proof {
                    lemma_balances_push(u0, rec);
                }
            },
        }
        self.globals.token_supply = self.globals.token_supply + amount;
        Ok(
            vec![
                TokenAction::TransferToPool { asset: Asset::Base, amount },
                TokenAction::MintShares { amount },
            ],
        )
    }

    /// The depositor's record after unstaking `amount` at time `now`:
    /// settled first, with the balance it had, then shrunk by `amount`.
    pub open spec fn unstaked_record(&self, user: Address, amount: int, now: int) -> UserRecord {
        let settled = checkpoint_user(self.globals, self.record_for(user), now);
        UserRecord { balance: (settled.balance - amount) as i128, ..settled }
    }

    /// Whether unstaking `amount` from `user`, who holds `share_balance`
    /// shares, gets past every check.
    pub open spec fn unstake_allowed(&self, user: Address, amount: int, share_balance: int) -> bool {
        &&& amount >= 0
        &&& self.state.initialized
        &&& share_balance >= amount
        &&& self.record_for(user).balance >= amount
    }

    /// Withdraws `amount` from `user`'s stake at ledger time `now`; `user`
    /// holds `share_balance` shares. The pool and the depositor are settled
    /// first; then balance and total shrink by `amount`. Where the balance reaches
    /// zero, the unclaimed reward is paid out (when there is any) and the
    /// record is dropped; shares are then neither burned nor the base asset
    /// returned. Otherwise the host burns `amount` shares and returns
    /// `amount` of the base asset.
    pub fn unstake(&mut self, user: &Address, amount: i128, share_balance: i128, now: i128) -> (r:
        Result<Vec<TokenAction>, Error>)
        requires
            old(self).wf(),
            old(self).unstake_allowed(*user, amount as int, share_balance as int) ==> checkpoint_fits(
                old(self).globals,
                old(self).record_for(*user),
                now as int,
            ),
        ensures
            final(self).wf(),
            amount < 0 ==> r == Err::<Vec<TokenAction>, Error>(Error::InvalidAmount),
            amount >= 0 && !old(self).state.initialized ==> r == Err::<Vec<TokenAction>, Error>(
                Error::NotInitialized,
            ),
            amount >= 0 && old(self).state.initialized && (share_balance < amount || old(
                self,
            ).record_for(*user).balance < amount) ==> r == Err::<Vec<TokenAction>, Error>(
                Error::NotEnoughFunds,
            ),
            r is Err ==> *final(self) == *old(self),
            old(self).unstake_allowed(*user, amount as int, share_balance as int) ==> {
                let rec = old(self).unstaked_record(*user, amount as int, now as int);
                &&& r is Ok
                &&& final(self).globals == (StakingGlobals {
                    token_supply: (old(self).globals.token_supply - amount) as i128,
                    ..checkpoint_globals(old(self).globals, now as int)
                })
                &&& final(self).state == old(self).state
                &&& final(self).address == old(self).address
                &&& if rec.balance == 0 {
                    &&& final(self).users@ == if old(self).has_record(user@) {
                        old(self).users@.remove(old(self).record_index(user@))
                    } else {
                        old(self).users@
                    }
                    &&& r->Ok_0@ == if rec.rewards_to_claim != 0 {
                        seq![
                            TokenAction::TransferFromPool {
                                asset: Asset::Reward,
                                amount: rec.rewards_to_claim,
                            },
                        ]
                    } else {
                        seq![]
                    }
                } else {
                    &&& old(self).has_record(user@)
                    &&& final(self).users@ == old(self).users@.update(
                        old(self).record_index(user@),
                        rec,
                    )
                    &&& r->Ok_0@ == seq![
                        TokenAction::BurnShares { amount },
                        TokenAction::TransferFromPool { asset: Asset::Base, amount },
                    ]
                }
            },
            final(self).globals.reward_per_token_stored >= old(self).globals.reward_per_token_stored,
            final(self).globals.last_updated_time >= old(self).globals.last_updated_time,
            final(self).globals.token_supply - old(self).globals.token_supply == balances(
                final(self).users@,
            ) - balances(old(self).users@),
            old(self).conserved() ==> final(self).conserved(),
    {
        if amount < 0 {
            return Err(Error::InvalidAmount);
        }
        if !self.state.initialized {
            return Err(Error::NotInitialized);
        }
        if share_balance < amount {
            return Err(Error::NotEnoughFunds);
        }
        let ghost g0 = self.globals;
        let ghost u0 = self.users@;
        match self.find_user(user) {
            None => {
                if amount > 0 {
                    return Err(Error::NotEnoughFunds);
                }
                // An empty withdrawal by an identity without a record: the
                // default record is settled, found empty and dropped again.
                let mut rec = StorageClient::get_default_user(user.duplicate());
                proof {
                    lemma_reward_per_token_grows(g0, now as int);
                }
                update_reward(&mut self.globals, &mut rec, now);
                Ok(Vec::new())
            },
            Some(i) => {
                if self.users[i].balance < amount {
                    return Err(Error::NotEnoughFunds);
                }
                proof {
                    lemma_reward_per_token_grows(self.globals, now as int);
                }
                let rec = &mut self.users[i];
                update_reward(&mut self.globals, rec, now);
                rec.balance = rec.balance - amount;
                proof {
                    lemma_balances_update(u0, i as int, self.users@[i as int]);
                    lemma_balances_nonneg(self.users@);
                }
                self.globals.token_supply = self.globals.token_supply - amount;
                if self.users[i].balance == 0 {
                    // The unclaimed reward goes out with the last of the stake.
                    let reward = self.users[i].rewards_to_claim;
                    let ghost u1 = self.users@;
                    self.users.remove(i);
                    proof {
                        lemma_balances_remove(u1, i as int);
                        assert(u1.remove(i as int) =~= u0.remove(i as int));
                    }
                    let mut actions: Vec<TokenAction> = Vec::new();
                    if reward != 0 {
                        actions.push(
                            TokenAction::TransferFromPool { asset: Asset::Reward, amount: reward },
                        );
                    }
                    Ok(actions)
                } else {
                    Ok(
                        vec![
                            TokenAction::BurnShares { amount },
                            TokenAction::TransferFromPool { asset: Asset::Base, amount },
                        ],
                    )
                }
            },
        }
    }

    /// Reward that `user` could claim at ledger time `now`; nothing while the
    /// pool is not initialized.
    pub fn earned(&self, user: &Address, now: i128) -> (r: i128)
        requires
            self.wf(),
            self.state.initialized ==> checkpoint_fits(self.globals, self.record_for(*user), now as int),
        ensures
            !self.state.initialized ==> r == 0,
            self.state.initialized ==> r == spec_earned(
                self.record_for(*user),
                spec_reward_per_token(self.globals, now as int),
            ),
    {
        if !self.state.initialized {
            return 0;
        }
        let rpt = reward_per_token(&self.globals, now);
        match self.find_user(user) {
            Some(i) => earned(&self.users[i], rpt),
            None => {
                proof {
                    lemma_default_earns_nothing(*user, rpt as int);
                }
                0
            },
        }
    }

    /// Pays out `user`'s reward at ledger time `now`. The pool and the
    /// depositor are settled first; the whole unclaimed reward then leaves
    /// custody and the record keeps none.
    pub fn claim_rewards(&mut self, user: &Address, now: i128) -> (r: Result<TokenAction, Error>)
        requires
            old(self).wf(),
            old(self).state.initialized ==> checkpoint_fits(
                old(self).globals,
                old(self).record_for(*user),
                now as int,
            ),
        ensures
            final(self).wf(),
            !old(self).state.initialized ==> r == Err::<TokenAction, Error>(Error::NotInitialized),
            r is Err ==> *final(self) == *old(self),
            old(self).state.initialized ==> {
                let rec = checkpoint_user(old(self).globals, old(self).record_for(*user), now as int);
                if rec.rewards_to_claim == 0 {
                    r == Err::<TokenAction, Error>(Error::ThereIsNoRewardToClaim)
                } else {
                    &&& r == Ok::<TokenAction, Error>(
                        TokenAction::TransferFromPool {
                            asset: Asset::Reward,
                            amount: rec.rewards_to_claim,
                        },
                    )
                    &&& old(self).has_record(user@)
                    &&& final(self).users@ == old(self).users@.update(
                        old(self).record_index(user@),
                        UserRecord { rewards_to_claim: 0, ..rec },
                    )
                    &&& final(self).globals == checkpoint_globals(old(self).globals, now as int)
                    &&& final(self).state == old(self).state
                    &&& final(self).address == old(self).address
                }
            },
            final(self).globals.reward_per_token_stored >= old(self).globals.reward_per_token_stored,
            final(self).globals.last_updated_time >= old(self).globals.last_updated_time,
            final(self).globals.token_supply == old(self).globals.token_supply,
            balances(final(self).users@) == balances(old(self).users@),
            old(self).conserved() ==> final(self).conserved(),
    {
        if !self.state.initialized {
            return Err(Error::NotInitialized);
        }
        let rpt = reward_per_token(&self.globals, now);
        match self.find_user(user) {
            None => {
                proof {
                    lemma_default_earns_nothing(*user, rpt as int);
                }
                Err(Error::ThereIsNoRewardToClaim)
            },
            Some(i) => {
                let reward = earned(&self.users[i], rpt);
                if reward == 0 {
                    return Err(Error::ThereIsNoRewardToClaim);
                }
                let ghost u0 = self.users@;
                proof {
                    lemma_reward_per_token_grows(self.globals, now as int);
                }
                let rec = &mut self.users[i];
                update_reward(&mut self.globals, rec, now);
                rec.rewards_to_claim = 0;
                proof {
                    lemma_balances_update(u0, i as int, self.users@[i as int]);
                }
                Ok(TokenAction::TransferFromPool { asset: Asset::Reward, amount: reward })
            },
        }
    }

    /// Whether settling `user` at time `now` stays within `i128`: the
    /// condition under which `earned`, `unstake` and `claim_rewards` may be
    /// called on an initialized pool.
    pub fn can_settle(&self, user: &Address, now: i128) -> (r: bool)
        requires
            self.wf(),
        ensures
            r == checkpoint_fits(self.globals, self.record_for(*user), now as int),
    {
        let rec = self.get_user_position(user);
        checkpoint_in_range(&self.globals, &rec, now)
    }

    /// Whether staking `amount` for `user` at time `now` stays within `i128`.
    pub fn can_stake(&self, user: &Address, amount: i128, now: i128) -> (r: bool)
        requires
            self.wf(),
        ensures
            r == self.stake_fits(*user, amount as int, now as int),
    {
        let rec = self.get_user_position(user);
        checkpoint_in_range(&self.globals, &rec, now) && self.globals.token_supply.checked_add(
            amount,
        ).is_some() && rec.balance.checked_add(amount).is_some()
    }
}

} // verus!
