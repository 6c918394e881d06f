//! The reward ledger: players prepay a balance, rent cores from it, and claim
//! a reward that grows with the cores they hold and the blocks that have
//! passed. A claim may start a "boom", which doubles the player's next
//! claims.
//!
//! The ledger never moves money itself. A withdrawal pays out: the host
//! first asks which transfer it needs ([`CoretimeClicker::withdraw_payout`]),
//! attempts it, and then makes the call with the answer; a call whose
//! transfer failed leaves the ledger as it was.

use crate::account::{AccountId, Balance, BlockNumber, Transfer};
use crate::account_map::{
    distinct_accounts, lemma_map_of_key, lemma_map_of_pair, map_of, slot_of, AccountMap,
};
use vstd::prelude::*;

verus! {

/// The reward for one core over one block.
pub const BASE_RATE: u128 = 10;

/// The number of claims a boom lasts.
pub const BOOM_CLAIMS: u8 = 5;

/// A boom starts when the generator's roll is a multiple of this.
pub const BOOM_CHANCE_DENOMINATOR: u64 = 100;

/// The increment of the generator, and the mask of its first seed.
pub const GOLDEN_RATIO_64: u64 = 0x9E37_79B9_7F4A_7C15;

/// The price of one core.
pub const RENT_COST: Balance = 1_000_000_000_000;

/// What the ledger keeps of one account.
///
/// `last_claim_block` is zero until the first rental. An `active_multiplier`
/// of one means no boom, of two a running boom.
#[derive(Debug, Clone, Copy, PartialEq, Eq, Structural)]
pub struct Player {
    pub cores_rented: u32,
    pub last_claim_block: BlockNumber,
    pub total_rewards: Balance,
    pub active_multiplier: u8,
    pub boom_claims_remaining: u8,
}

impl Player {
    /// The record of an account the ledger has not seen: no cores, no
    /// rewards, no boom.
    pub open spec fn spec_default() -> Player {
        Player {
            cores_rented: 0,
            last_claim_block: 0,
            total_rewards: 0,
            active_multiplier: 1,
            boom_claims_remaining: 0,
        }
    }

    /// The multiplier is one or two, a boom is running exactly while boosted
    /// claims remain, and it lasts at most [`BOOM_CLAIMS`] claims.
    pub open spec fn valid(self) -> bool {
        &&& 1 <= self.active_multiplier <= 2
        &&& (self.active_multiplier > 1) == (self.boom_claims_remaining > 0)
        &&& self.boom_claims_remaining <= BOOM_CLAIMS
    }

    /// The factor applied to this player's next claim: the multiplier, and
    /// one for a record whose multiplier is below one.
    pub open spec fn multiplier(self) -> int {
        if self.active_multiplier > 1 {
            self.active_multiplier as int
        } else {
            1
        }
    }

    /// The reward this player is owed at `current_block`: nothing without
    /// cores or before a block has passed, else cores times blocks passed
    /// times [`BASE_RATE`] times the running multiplier.
    pub open spec fn pending_reward(self, current_block: BlockNumber) -> int {
        if self.cores_rented == 0 || current_block <= self.last_claim_block {
            0
        } else {
            self.cores_rented * (current_block - self.last_claim_block) * BASE_RATE
                * self.multiplier()
        }
    }

    /// This player after one more core, rented at `block_number`.
    pub open spec fn after_rent(self, block_number: BlockNumber) -> Player {
        Player {
            cores_rented: (self.cores_rented + 1) as u32,
            last_claim_block: if self.last_claim_block == 0 {
                block_number
            } else {
                self.last_claim_block
            },
            ..self
        }
    }

    /// This player after one claim has been counted against a running boom.
    pub open spec fn after_boom_claim(self) -> Player {
        if self.boom_claims_remaining > 1 {
            Player { boom_claims_remaining: (self.boom_claims_remaining - 1) as u8, ..self }
        } else if self.boom_claims_remaining == 1 {
            Player { boom_claims_remaining: 0, active_multiplier: 1, ..self }
        } else {
            self
        }
    }

    /// This player after a claim at `block_number`, where `boom` says whether
    /// the claim started a boom.
    pub open spec fn after_claim(self, block_number: BlockNumber, boom: bool) -> Player {
        let paid = Player {
            total_rewards: (self.total_rewards + self.pending_reward(block_number)) as Balance,
            last_claim_block: block_number,
            ..self
        }.after_boom_claim();
        if boom {
            Player { active_multiplier: 2, boom_claims_remaining: BOOM_CLAIMS, ..paid }
        } else {
            paid
        }
    }

    /// What a query at `current_block` reports of this player.
    pub open spec fn status(self, current_block: BlockNumber) -> PlayerStatus {
        PlayerStatus {
            cores_rented: self.cores_rented,
            total_rewards: self.total_rewards,
            pending_reward: self.pending_reward(current_block) as Balance,
            active_multiplier: self.active_multiplier,
            boom_claims_remaining: self.boom_claims_remaining,
            last_claim_block: self.last_claim_block,
        }
    }
}

impl Default for Player {
    fn default() -> (p: Player)
        ensures
            p == Player::spec_default(),
    {
        Player {
            cores_rented: 0,
            last_claim_block: 0,
            total_rewards: 0,
            active_multiplier: 1,
            boom_claims_remaining: 0,
        }
    }
}

/// What a query reports of one account.
#[derive(Debug, Clone, Copy, PartialEq, Eq, Structural)]
pub struct PlayerStatus {
    pub cores_rented: u32,
    pub total_rewards: Balance,
    pub pending_reward: Balance,
    pub active_multiplier: u8,
    pub boom_claims_remaining: u8,
    pub last_claim_block: BlockNumber,
}

impl PlayerStatus {
    /// What a query reports of an account the ledger has not seen: no cores,
    /// no rewards, nothing pending, no boom.
    pub open spec fn spec_default() -> PlayerStatus {
        PlayerStatus {
            cores_rented: 0,
            total_rewards: 0,
            pending_reward: 0,
            active_multiplier: 1,
            boom_claims_remaining: 0,
            last_claim_block: 0,
        }
    }
}

impl Default for PlayerStatus {
    fn default() -> (s: PlayerStatus)
        ensures
            s == PlayerStatus::spec_default(),
    {
        PlayerStatus {
            cores_rented: 0,
            total_rewards: 0,
            pending_reward: 0,
            active_multiplier: 1,
            boom_claims_remaining: 0,
            last_claim_block: 0,
        }
    }
}

/// Why a call on the ledger failed.
#[derive(Debug, Clone, Copy, PartialEq, Eq, Structural)]
pub enum ContractError {
    NoCoresRented,
    NothingToClaim,
    RewardOverflow,
    CoreOverflow,
    InsufficientBalance,
    TransferFailed,
}

/// Published when a core is rented.
#[derive(Debug, Clone, Copy, PartialEq, Eq)]
pub struct CoreRented {
    pub player: AccountId,
    pub cores_rented: u32,
    pub block_number: BlockNumber,
    pub balance_remaining: Balance,
}

/// Published when a reward is claimed.
#[derive(Debug, Clone, Copy, PartialEq, Eq)]
pub struct RewardClaimed {
    pub player: AccountId,
    pub amount: Balance,
    pub multiplier: u8,
    pub block_number: BlockNumber,
}

/// Published when a claim starts a boom.
#[derive(Debug, Clone, Copy, PartialEq, Eq)]
pub struct ElasticBoom {
    pub player: AccountId,
    pub bonus_amount: Balance,
    pub boosted_claims: u8,
}

/// Published when a balance is paid in.
#[derive(Debug, Clone, Copy, PartialEq, Eq)]
pub struct BalanceDeposited {
    pub player: AccountId,
    pub amount: Balance,
    pub new_balance: Balance,
}

/// Published when a balance is paid out.
#[derive(Debug, Clone, Copy, PartialEq, Eq)]
pub struct BalanceWithdrawn {
    pub player: AccountId,
    pub amount: Balance,
    pub new_balance: Balance,
}

/// The generator's first seed: the block height of construction, masked.
pub open spec fn first_seed(block_number: BlockNumber) -> u64 {
    (block_number as u64) ^ GOLDEN_RATIO_64
}

/// The generator's seed after a roll at `block_number`: the old seed plus the
/// block height plus [`GOLDEN_RATIO_64`], modulo 2^64. The new seed is the
/// roll.
pub open spec fn next_seed(seed: u64, block_number: BlockNumber) -> u64 {
    ((seed + block_number + GOLDEN_RATIO_64) % 0x1_0000_0000_0000_0000) as u64
}

/// Whether a roll starts a boom.
pub open spec fn is_boom(roll: u64) -> bool {
    roll % BOOM_CHANCE_DENOMINATOR == 0
}

/// One call on the ledger, with everything the host supplies to it.
pub enum LedgerCall {
    RentCore { caller: AccountId, block_number: BlockNumber },
    Deposit { caller: AccountId, amount: Balance },
    Withdraw { caller: AccountId, amount: Balance, transferred: bool },
    ClaimReward { caller: AccountId, block_number: BlockNumber },
}

impl LedgerCall {
    /// The account that makes the call.
    pub open spec fn caller(self) -> AccountId {
        match self {
            LedgerCall::RentCore { caller, .. } => caller,
            LedgerCall::Deposit { caller, .. } => caller,
            LedgerCall::Withdraw { caller, .. } => caller,
            LedgerCall::ClaimReward { caller, .. } => caller,
        }
    }
}

/// What a ledger is, apart from how it is stored.
pub struct CoretimeClickerView {
    /// The record of every account that has rented or claimed.
    pub players: Map<AccountId, Player>,
    /// The number of cores rented, over all accounts.
    pub total_cores_rented: u64,
    /// The state of the generator that decides booms.
    pub jackpot_seed: u64,
    /// The prepaid balance of every account that has paid in, rented or
    /// withdrawn.
    pub balances: Map<AccountId, Balance>,
}

impl CoretimeClickerView {
    /// What holds of every ledger: each player's record is valid.
    pub open spec fn valid(self) -> bool {
        forall|a: AccountId| #[trigger] self.players.contains_key(a) ==> self.players[a].valid()
    }

    /// The record of `account`, and the record of an unseen account where
    /// the ledger has none.
    pub open spec fn player(self, account: AccountId) -> Player {
        if self.players.contains_key(account) {
            self.players[account]
        } else {
            Player::spec_default()
        }
    }

    /// The prepaid balance of `account`, zero where the ledger has none.
    pub open spec fn balance_of(self, account: AccountId) -> Balance {
        if self.balances.contains_key(account) {
            self.balances[account]
        } else {
            0
        }
    }

    /// The ledger right after construction at `block_number`.
    pub open spec fn initial(block_number: BlockNumber) -> CoretimeClickerView {
        CoretimeClickerView {
            players: Map::empty(),
            total_cores_rented: 0,
            jackpot_seed: first_seed(block_number),
            balances: Map::empty(),
        }
    }

    /// The error with which a rental is refused, if it is.
    pub open spec fn rent_core_error(self, caller: AccountId) -> Option<ContractError> {
        if self.balance_of(caller) < RENT_COST {
            Some(ContractError::InsufficientBalance)
        } else if self.player(caller).cores_rented == u32::MAX || self.total_cores_rented
            == u64::MAX {
            Some(ContractError::CoreOverflow)
        } else {
            None
        }
    }

    /// The ledger after `caller` has rented a core at `block_number`.
    pub open spec fn after_rent_core(
        self,
        caller: AccountId,
        block_number: BlockNumber,
    ) -> CoretimeClickerView {
        CoretimeClickerView {
            players: self.players.insert(caller, self.player(caller).after_rent(block_number)),
            total_cores_rented: (self.total_cores_rented + 1) as u64,
            balances: self.balances.insert(
                caller,
                (self.balance_of(caller) - RENT_COST) as Balance,
            ),
            ..self
        }
    }

    /// The error with which a deposit is refused, if it is.
    pub open spec fn deposit_error(self, caller: AccountId, amount: Balance) -> Option<
        ContractError,
    > {
        if self.balance_of(caller) + amount > u128::MAX {
            Some(ContractError::RewardOverflow)
        } else {
            None
        }
    }

    /// The ledger after `caller` has paid in `amount`.
    pub open spec fn after_deposit(
        self,
        caller: AccountId,
        amount: Balance,
    ) -> CoretimeClickerView {
        CoretimeClickerView {
            balances: self.balances.insert(caller, (self.balance_of(caller) + amount) as Balance),
            ..self
        }
    }

    /// The error with which a withdrawal fails, if it does, where
    /// `transferred` says whether the host's transfer went through.
    pub open spec fn withdraw_error(
        self,
        caller: AccountId,
        amount: Balance,
        transferred: bool,
    ) -> Option<ContractError> {
        if self.balance_of(caller) < amount {
            Some(ContractError::InsufficientBalance)
        } else if amount > 0 && !transferred {
            Some(ContractError::TransferFailed)
        } else {
            None
        }
    }

    /// The ledger after `caller` has been paid out `amount`.
    pub open spec fn after_withdraw(
        self,
        caller: AccountId,
        amount: Balance,
    ) -> CoretimeClickerView {
        CoretimeClickerView {
            balances: self.balances.insert(caller, (self.balance_of(caller) - amount) as Balance),
            ..self
        }
    }

    /// The error with which a claim is refused, if it is.
    pub open spec fn claim_reward_error(
        self,
        caller: AccountId,
        block_number: BlockNumber,
    ) -> Option<ContractError> {
        let player = self.player(caller);
        if player.cores_rented == 0 {
            Some(ContractError::NoCoresRented)
        } else if block_number <= player.last_claim_block {
            Some(ContractError::NothingToClaim)
        } else if player.total_rewards + player.pending_reward(block_number) > u128::MAX {
            Some(ContractError::RewardOverflow)
        } else {
            None
        }
    }

    /// The ledger after `caller` has claimed at `block_number`: the reward is
    /// added to the player's total, accrual restarts at this block, a
    /// running boom loses one claim, and the generator has rolled once, which
    /// may have started a boom.
    pub open spec fn after_claim_reward(
        self,
        caller: AccountId,
        block_number: BlockNumber,
    ) -> CoretimeClickerView {
        let roll = next_seed(self.jackpot_seed, block_number);
        CoretimeClickerView {
            players: self.players.insert(
                caller,
                self.player(caller).after_claim(block_number, is_boom(roll)),
            ),
            jackpot_seed: roll,
            ..self
        }
    }

    /// The error with which `call` fails on this ledger, if it does.
    pub open spec fn call_error(self, call: LedgerCall) -> Option<ContractError> {
        match call {
            LedgerCall::RentCore { caller, .. } => self.rent_core_error(caller),
            LedgerCall::Deposit { caller, amount } => self.deposit_error(caller, amount),
            LedgerCall::Withdraw { caller, amount, transferred } => self.withdraw_error(
                caller,
                amount,
                transferred,
            ),
            LedgerCall::ClaimReward { caller, block_number } => self.claim_reward_error(
                caller,
                block_number,
            ),
        }
    }

    /// The ledger after `call`: as it was where the call fails, and as the
    /// operation leaves it where it succeeds.
    pub open spec fn after_call(self, call: LedgerCall) -> CoretimeClickerView {
        if self.call_error(call) is Some {
            self
        } else {
            match call {
                LedgerCall::RentCore { caller, block_number } => self.after_rent_core(
                    caller,
                    block_number,
                ),
                LedgerCall::Deposit { caller, amount } => self.after_deposit(caller, amount),
                LedgerCall::Withdraw { caller, amount, .. } => self.after_withdraw(caller, amount),
                LedgerCall::ClaimReward { caller, block_number } => self.after_claim_reward(
                    caller,
                    block_number,
                ),
            }
        }
    }

    /// The ledger after a sequence of calls, made one after the other.
    pub open spec fn after_calls(self, calls: Seq<LedgerCall>) -> CoretimeClickerView
        decreases calls.len(),
    {
        if calls.len() == 0 {
            self
        } else {
            self.after_calls(calls.drop_last()).after_call(calls.last())
        }
    }
}

/// The reward for `cores` cores over `elapsed_blocks` blocks at the base
/// rate. The product fits the balance type, so nothing is cut off.
pub fn calculate_reward(cores: u32, elapsed_blocks: u32) -> (reward: Balance)
    ensures
        reward == cores * elapsed_blocks * BASE_RATE,
        reward <= 0xffff_ffff * 0xffff_ffff * 10,
{
    assert(cores * elapsed_blocks <= 0xffff_ffff * 0xffff_ffff) by (nonlinear_arith)
        requires
            0 <= cores <= 0xffff_ffff,
            0 <= elapsed_blocks <= 0xffff_ffff,
    ;
    assert(cores * elapsed_blocks >= 0) by (nonlinear_arith)
        requires
            0 <= cores,
            0 <= elapsed_blocks,
    ;
    saturating_mul(saturating_mul(cores as u128, elapsed_blocks as u128), BASE_RATE)
}

/// The product of two balances, capped at the largest balance.
pub fn saturating_mul(a: Balance, b: Balance) -> (product: Balance)
    ensures
        product == (if a * b > u128::MAX {
            u128::MAX as int
        } else {
            a * b
        }),
{
    match a.checked_mul(b) {
        Some(p) => p,
        None => u128::MAX,
    }
}

/// Everything a ledger holds, as plain data: what a host keeps between one
/// call and the next.
pub struct CoretimeClickerState {
    pub player_stats: Vec<(AccountId, Player)>,
    pub total_cores_rented: u64,
    pub jackpot_seed: u64,
    pub prepaid_balances: Vec<(AccountId, Balance)>,
}

impl View for CoretimeClickerState {
    type V = CoretimeClickerView;

    open spec fn view(&self) -> CoretimeClickerView {
        CoretimeClickerView {
            players: map_of(self.player_stats@),
            total_cores_rented: self.total_cores_rented,
            jackpot_seed: self.jackpot_seed,
            balances: map_of(self.prepaid_balances@),
        }
    }
}

impl CoretimeClickerState {
    /// No account occurs twice in either list, and each player's record is
    /// valid.
    pub open spec fn wf(&self) -> bool {
        &&& distinct_accounts(self.player_stats@)
        &&& distinct_accounts(self.prepaid_balances@)
        &&& forall|i: int|
            0 <= i < self.player_stats.len() ==> (#[trigger] self.player_stats[i]).1.valid()
    }
}

/// The reward ledger.
pub struct CoretimeClicker {
    player_stats: AccountMap<Player>,
    total_cores_rented: u64,
    jackpot_seed: u64,
    prepaid_balances: AccountMap<Balance>,
}

impl View for CoretimeClicker {
    type V = CoretimeClickerView;

    closed spec fn view(&self) -> CoretimeClickerView {
        CoretimeClickerView {
            players: self.player_stats@,
            total_cores_rented: self.total_cores_rented,
            jackpot_seed: self.jackpot_seed,
            balances: self.prepaid_balances@,
        }
    }
}

impl CoretimeClicker {
    /// Both tables are well formed, and the view is valid.
    pub closed spec fn wf(&self) -> bool {
        &&& self.player_stats.wf()
        &&& self.prepaid_balances.wf()
        &&& self@.valid()
    }

    /// A well-formed ledger has a valid view.
    pub proof fn lemma_wf_valid(&self)
        requires
            self.wf(),
        ensures
            self@.valid(),
    {
    }

    /// An empty ledger, whose generator is seeded from the block height.
    pub fn new(block_number: BlockNumber) -> (ledger: CoretimeClicker)
        ensures
            ledger.wf(),
            ledger@ == CoretimeClickerView::initial(block_number),
    {
        CoretimeClicker {
            player_stats: AccountMap::new(),
            total_cores_rented: 0,
            jackpot_seed: (block_number as u64) ^ GOLDEN_RATIO_64,
            prepaid_balances: AccountMap::new(),
        }
    }

    /// The ledger as plain data.
    pub fn into_state(self) -> (state: CoretimeClickerState)
        requires
            self.wf(),
        ensures
            state.wf(),
            state@ == self@,
    {
        let ghost players = self@.players;
        let player_stats = self.player_stats.into_entries();
        let prepaid_balances = self.prepaid_balances.into_entries();
        proof {
            assert forall|i: int| 0 <= i < player_stats.len() implies (#[trigger]
                player_stats[i]).1.valid() by {
                lemma_map_of_pair(player_stats@, i);
                assert(players.contains_key(player_stats[i].0));
            }
        }
        CoretimeClickerState {
            player_stats,
            total_cores_rented: self.total_cores_rented,
            jackpot_seed: self.jackpot_seed,
            prepaid_balances,
        }
    }

    /// The ledger that the plain data stands for, unless the data is not
    /// well formed.
    pub fn from_state(state: CoretimeClickerState) -> (r: Option<CoretimeClicker>)
        ensures
            r is Some <==> state.wf(),
            r matches Some(ledger) ==> ledger.wf() && ledger@ == state@,
    {
        let mut i: usize = 0;
        while i < state.player_stats.len()
            invariant
                i <= state.player_stats.len(),
                forall|k: int| 0 <= k < i ==> (#[trigger] state.player_stats[k]).1.valid(),
            decreases state.player_stats.len() - i,
        {
            let player = state.player_stats[i].1;
            let boosted = player.active_multiplier > 1;
            let counting = player.boom_claims_remaining > 0;
            if player.active_multiplier < 1 || player.active_multiplier > 2 || boosted != counting
                || player.boom_claims_remaining > BOOM_CLAIMS {
                assert(!state.player_stats[i as int].1.valid());
                return None;
            }
            i += 1;
        }
        let ghost pairs = state.player_stats@;
        let player_stats = match AccountMap::from_entries(state.player_stats) {
            Some(m) => m,
            None => return None,
        };
        let prepaid_balances = match AccountMap::from_entries(state.prepaid_balances) {
            Some(m) => m,
            None => return None,
        };
        let ledger = CoretimeClicker {
            player_stats,
            total_cores_rented: state.total_cores_rented,
            jackpot_seed: state.jackpot_seed,
            prepaid_balances,
        };
        proof {
            assert forall|a: AccountId| #[trigger]
                ledger@.players.contains_key(a) implies ledger@.players[a].valid() by {
                lemma_map_of_key(pairs, a);
                assert(pairs[slot_of(pairs, a)].1.valid());
            }
        }
        Some(ledger)
    }

    /// The record of `account`, and the record of an unseen account where
    /// the ledger has none.
    fn player(&self, account: &AccountId) -> (p: Player)
        requires
            self.wf(),
        ensures
            p == self@.player(*account),
            p.valid(),
    {
        match self.player_stats.get(account) {
            Some(p) => p,
            None => Player::default(),
        }
    }

    /// Rents one core for `caller` at `block_number` and returns the event.
    ///
    /// The price, [`RENT_COST`], is taken from the caller's prepaid balance;
    /// the first rental starts the caller's accrual at this block. The call
    /// fails with `InsufficientBalance` where the balance is below the price
    /// and with `CoreOverflow` where a counter is full. A failed call
    /// changes nothing.
    pub fn rent_core(&mut self, caller: AccountId, block_number: BlockNumber) -> (r: Result<
        CoreRented,
        ContractError,
    >)
        requires
            old(self).wf(),
        ensures
            final(self).wf(),
            final(self)@ == old(self)@.after_call(LedgerCall::RentCore { caller, block_number }),
            old(self)@.balance_of(caller) < RENT_COST ==> r == Err::<CoreRented, _>(
                ContractError::InsufficientBalance,
            ),
            match r {
                Ok(event) => {
                    &&& old(self)@.rent_core_error(caller) is None
                    &&& final(self)@ == old(self)@.after_rent_core(caller, block_number)
                    &&& final(self)@.balance_of(caller) == old(self)@.balance_of(caller) - RENT_COST
                    &&& final(self)@.player(caller).cores_rented == old(self)@.player(
                        caller,
                    ).cores_rented + 1
                    &&& final(self)@.total_cores_rented == old(self)@.total_cores_rented + 1
                    &&& event == (CoreRented {
                        player: caller,
                        cores_rented: final(self)@.player(caller).cores_rented,
                        block_number,
                        balance_remaining: final(self)@.balance_of(caller),
                    })
                },
                Err(e) => {
                    &&& old(self)@.rent_core_error(caller) == Some(e)
                    &&& final(self)@ == old(self)@
                },
            },
    {
        let mut player = self.player(&caller);
        let balance = self.balance_of(caller);
        if balance < RENT_COST {
            return Err(ContractError::InsufficientBalance);
        }
        let balance = balance - RENT_COST;
        let cores_rented = match player.cores_rented.checked_add(1) {
            Some(c) => c,
            None => return Err(ContractError::CoreOverflow),
        };
        let total_cores_rented = match self.total_cores_rented.checked_add(1) {
            Some(t) => t,
            None => return Err(ContractError::CoreOverflow),
        };
        player.cores_rented = cores_rented;
        if player.last_claim_block == 0 {
            player.last_claim_block = block_number;
        }
        self.prepaid_balances.insert(caller, balance);
        self.total_cores_rented = total_cores_rented;
        self.player_stats.insert(caller, player);
        assert(self@ == old(self)@.after_rent_core(caller, block_number));
        Ok(CoreRented { player: caller, cores_rented, block_number, balance_remaining: balance })
    }

    /// Adds `amount`, the value attached to the call, to the caller's
    /// prepaid balance and returns the new balance and the event.
    ///
    /// The call fails with `RewardOverflow` where the balance would not fit;
    /// a failed call changes nothing.
    pub fn deposit(&mut self, caller: AccountId, amount: Balance) -> (r: Result<
        (Balance, BalanceDeposited),
        ContractError,
    >)
        requires
            old(self).wf(),
        ensures
            final(self).wf(),
            final(self)@ == old(self)@.after_call(LedgerCall::Deposit { caller, amount }),
            match r {
                Ok((new_balance, event)) => {
                    &&& old(self)@.deposit_error(caller, amount) is None
                    &&& final(self)@ == old(self)@.after_deposit(caller, amount)
                    &&& new_balance == old(self)@.balance_of(caller) + amount
                    &&& new_balance == final(self)@.balance_of(caller)
                    &&& event == (BalanceDeposited { player: caller, amount, new_balance })
                },
                Err(e) => {
                    &&& old(self)@.deposit_error(caller, amount) == Some(e)
                    &&& final(self)@ == old(self)@
                },
            },
    {
        let balance = self.balance_of(caller);
        let new_balance = match balance.checked_add(amount) {
            Some(b) => b,
            None => return Err(ContractError::RewardOverflow),
        };
        self.prepaid_balances.insert(caller, new_balance);
        assert(self@ == old(self)@.after_deposit(caller, amount));
        Ok((new_balance, BalanceDeposited { player: caller, amount, new_balance }))
    }

    /// The transfer that a withdrawal of `amount` by `caller` needs: the
    /// amount, to the caller, where the balance covers it and it is not
    /// zero; otherwise none.
    pub fn withdraw_payout(&self, caller: AccountId, amount: Balance) -> (r: Option<Transfer>)
        requires
            self.wf(),
        ensures
            r == (if self@.balance_of(caller) >= amount && amount > 0 {
                Some(Transfer { to: caller, amount })
            } else {
                None
            }),
    {
        if self.balance_of(caller) >= amount && amount > 0 {
            Some(Transfer { to: caller, amount })
        } else {
            None
        }
    }

    /// Takes `amount` from the caller's prepaid balance and returns the new
    /// balance and the event.
    ///
    /// The call fails with `InsufficientBalance` where the balance is below
    /// the amount. Past that, and unless the amount is zero, `transferred`
    /// tells whether the host's transfer of
    /// [`CoretimeClicker::withdraw_payout`] went through; if it did not, the
    /// call fails with `TransferFailed`. A failed call changes nothing.
    pub fn withdraw(&mut self, caller: AccountId, amount: Balance, transferred: bool) -> (r: Result<
        (Balance, BalanceWithdrawn),
        ContractError,
    >)
        requires
            old(self).wf(),
        ensures
            final(self).wf(),
            final(self)@ == old(self)@.after_call(
                LedgerCall::Withdraw { caller, amount, transferred },
            ),
            match r {
                Ok((new_balance, event)) => {
                    &&& old(self)@.withdraw_error(caller, amount, transferred) is None
                    &&& final(self)@ == old(self)@.after_withdraw(caller, amount)
                    &&& new_balance == old(self)@.balance_of(caller) - amount
                    &&& new_balance == final(self)@.balance_of(caller)
                    &&& event == (BalanceWithdrawn { player: caller, amount, new_balance })
                },
                Err(e) => {
                    &&& old(self)@.withdraw_error(caller, amount, transferred) == Some(e)
                    &&& final(self)@ == old(self)@
                },
            },
    {
        let balance = self.balance_of(caller);
        if balance < amount {
            return Err(ContractError::InsufficientBalance);
        }
        if amount > 0 && !transferred {
            return Err(ContractError::TransferFailed);
        }
        let new_balance = balance - amount;
        self.prepaid_balances.insert(caller, new_balance);
        assert(self@ == old(self)@.after_withdraw(caller, amount));
        Ok((new_balance, BalanceWithdrawn { player: caller, amount, new_balance }))
    }

    /// Pays `caller` the reward accrued up to `block_number` and returns the
    /// reward, its event, and the event of a boom where the claim started
    /// one.
    ///
    /// The reward is `pending_reward(block_number)` of the caller's record.
    /// The call fails with `NoCoresRented` where the caller holds no core,
    /// with `NothingToClaim` where no block has passed since the last
    /// claim, and with `RewardOverflow` where the caller's total would not
    /// fit. A failed call changes nothing, the generator included.
    pub fn claim_reward(&mut self, caller: AccountId, block_number: BlockNumber) -> (r: Result<
        (Balance, RewardClaimed, Option<ElasticBoom>),
        ContractError,
    >)
        requires
            old(self).wf(),
        ensures
            final(self).wf(),
            final(self)@ == old(self)@.after_call(LedgerCall::ClaimReward { caller, block_number }),
            match r {
                Ok((reward, claimed, boom)) => {
                    let player = old(self)@.player(caller);
                    &&& old(self)@.claim_reward_error(caller, block_number) is None
                    &&& final(self)@ == old(self)@.after_claim_reward(caller, block_number)
                    &&& reward == player.pending_reward(block_number)
                    &&& final(self)@.player(caller).total_rewards == player.total_rewards + reward
                    &&& claimed == (RewardClaimed {
                        player: caller,
                        amount: reward,
                        multiplier: player.multiplier() as u8,
                        block_number,
                    })
                    &&& boom == (if is_boom(final(self)@.jackpot_seed) {
                        Some(
                            ElasticBoom {
                                player: caller,
                                bonus_amount: 0,
                                boosted_claims: BOOM_CLAIMS,
                            },
                        )
                    } else {
                        None
                    })
                },
                Err(e) => {
                    &&& old(self)@.claim_reward_error(caller, block_number) == Some(e)
                    &&& final(self)@ == old(self)@
                },
            },
    {
        let mut player = self.player(&caller);
        if player.cores_rented == 0 {
            return Err(ContractError::NoCoresRented);
        }
        if block_number <= player.last_claim_block {
            return Err(ContractError::NothingToClaim);
        }
        let ghost before = player;
        let elapsed_blocks = block_number - player.last_claim_block;
        let base_reward = calculate_reward(player.cores_rented, elapsed_blocks);
        let reward_multiplier: u8 = if player.active_multiplier > 1 {
            player.active_multiplier
        } else {
            1
        };
        assert(base_reward * reward_multiplier == before.pending_reward(block_number)
            && base_reward * reward_multiplier <= u128::MAX) by (nonlinear_arith)
            requires
                base_reward == before.cores_rented * (block_number - before.last_claim_block)
                    * BASE_RATE,
                base_reward <= 0xffff_ffff * 0xffff_ffff * 10,
                reward_multiplier == before.multiplier(),
                0 <= reward_multiplier <= 255,
                before.cores_rented != 0,
                block_number > before.last_claim_block,
                before.pending_reward(block_number) == before.cores_rented * (block_number
                    - before.last_claim_block) * BASE_RATE * before.multiplier(),
        ;
        let reward = match base_reward.checked_mul(reward_multiplier as u128) {
            Some(r) => r,
            None => return Err(ContractError::RewardOverflow),
        };
        let total_rewards = match player.total_rewards.checked_add(reward) {
            Some(t) => t,
            None => return Err(ContractError::RewardOverflow),
        };
        player.total_rewards = total_rewards;
        player.last_claim_block = block_number;
        if player.boom_claims_remaining > 0 {
            player.boom_claims_remaining -= 1;
            if player.boom_claims_remaining == 0 {
                player.active_multiplier = 1;
            }
        }
        let triggered_boom = self.maybe_trigger_boom(&mut player, block_number);
        self.player_stats.insert(caller, player);
        assert(player == before.after_claim(block_number, is_boom(self@.jackpot_seed)));
        assert(self@ == old(self)@.after_claim_reward(caller, block_number));
        let claimed = RewardClaimed {
            player: caller,
            amount: reward,
            multiplier: reward_multiplier,
            block_number,
        };
        let boom = match triggered_boom {
            Some(boosted_claims) => Some(
                ElasticBoom { player: caller, bonus_amount: 0, boosted_claims },
            ),
            None => None,
        };
        Ok((reward, claimed, boom))
    }

    /// What the ledger holds of `account`, with the reward it would be paid
    /// at `current_block`. Reads only, and never fails.
    pub fn check_status(&self, account: AccountId, current_block: BlockNumber) -> (status:
        PlayerStatus)
        requires
            self.wf(),
        ensures
            status == self@.player(account).status(current_block),
            status.pending_reward == self@.player(account).pending_reward(current_block),
            !self@.players.contains_key(account) ==> status == PlayerStatus::spec_default(),
    {
        let player = self.player(&account);
        let pending_reward = if player.cores_rented == 0 || current_block
            <= player.last_claim_block {
            0
        } else {
            let elapsed_blocks = current_block - player.last_claim_block;
            let base_reward = calculate_reward(player.cores_rented, elapsed_blocks);
            let multiplier: u128 = if player.active_multiplier > 1 {
                player.active_multiplier as u128
            } else {
                1
            };
            assert(base_reward * multiplier == player.pending_reward(current_block) && base_reward
                * multiplier <= u128::MAX) by (nonlinear_arith)
                requires
                    base_reward == player.cores_rented * (current_block - player.last_claim_block)
                        * BASE_RATE,
                    base_reward <= 0xffff_ffff * 0xffff_ffff * 10,
                    multiplier == player.multiplier(),
                    0 <= multiplier <= 255,
                    player.cores_rented != 0,
                    current_block > player.last_claim_block,
                    player.pending_reward(current_block) == player.cores_rented * (current_block
                        - player.last_claim_block) * BASE_RATE * player.multiplier(),
            ;
            saturating_mul(base_reward, multiplier)
        };
        PlayerStatus {
            cores_rented: player.cores_rented,
            total_rewards: player.total_rewards,
            pending_reward,
            active_multiplier: player.active_multiplier,
            boom_claims_remaining: player.boom_claims_remaining,
            last_claim_block: player.last_claim_block,
        }
    }

    /// The number of cores rented, over all accounts.
    pub fn total_cores_rented(&self) -> (total: u64)
        ensures
            total == self@.total_cores_rented,
    {
        self.total_cores_rented
    }

    /// The prepaid balance of `account`, zero where the ledger has none.
    pub fn balance_of(&self, account: AccountId) -> (balance: Balance)
        requires
            self.wf(),
        ensures
            balance == self@.balance_of(account),
    {
        match self.prepaid_balances.get(&account) {
            Some(b) => b,
            None => 0,
        }
    }

    /// Rolls the generator and, where the roll says so, starts a boom for
    /// `player`, returning the number of boosted claims.
    fn maybe_trigger_boom(&mut self, player: &mut Player, block_number: BlockNumber) -> (r: Option<
        u8,
    >)
        ensures
            final(self).jackpot_seed == next_seed(old(self).jackpot_seed, block_number),
            final(self).player_stats == old(self).player_stats,
            final(self).prepaid_balances == old(self).prepaid_balances,
            final(self).total_cores_rented == old(self).total_cores_rented,
            is_boom(final(self).jackpot_seed) ==> r == Some(BOOM_CLAIMS) && *final(player)
                == (Player {
                active_multiplier: 2,
                boom_claims_remaining: BOOM_CLAIMS,
                ..*old(player)
            }),
            !is_boom(final(self).jackpot_seed) ==> r is None && *final(player) == *old(player),
    {
        let roll = self.next_random(block_number);
        if roll % BOOM_CHANCE_DENOMINATOR == 0 {
            player.active_multiplier = 2;
            player.boom_claims_remaining = BOOM_CLAIMS;
            Some(BOOM_CLAIMS)
        } else {
            None
        }
    }

    /// Advances the generator by one roll at `block_number` and returns the
    /// roll.
    fn next_random(&mut self, block_number: BlockNumber) -> (roll: u64)
        ensures
            roll == next_seed(old(self).jackpot_seed, block_number),
            final(self).jackpot_seed == roll,
            final(self).player_stats == old(self).player_stats,
            final(self).prepaid_balances == old(self).prepaid_balances,
            final(self).total_cores_rented == old(self).total_cores_rented,
    {
        let new_seed = self.jackpot_seed.wrapping_add(block_number as u64).wrapping_add(
            GOLDEN_RATIO_64,
        );
        self.jackpot_seed = new_seed;
        new_seed
    }
}

/// Every step of the ledger keeps each player's record valid.
pub proof fn law_steps_keep_validity(
    ledger: CoretimeClickerView,
    caller: AccountId,
    amount: Balance,
    block_number: BlockNumber,
)
    requires
        ledger.valid(),
    ensures
        ledger.after_rent_core(caller, block_number).valid(),
        ledger.after_deposit(caller, amount).valid(),
        ledger.after_withdraw(caller, amount).valid(),
        ledger.after_claim_reward(caller, block_number).valid(),
{
}

/// A rental takes exactly the price from the caller's balance and adds
/// exactly one core to the caller's record, and touches no other account;
/// below the price it is refused with `InsufficientBalance`.
pub proof fn law_rent_core_costs_one_price(
    ledger: CoretimeClickerView,
    caller: AccountId,
    block_number: BlockNumber,
)
    ensures
        ledger.balance_of(caller) < RENT_COST ==> ledger.rent_core_error(caller) == Some(
            ContractError::InsufficientBalance,
        ),
        ledger.rent_core_error(caller) is None ==> ({
            let after = ledger.after_rent_core(caller, block_number);
            &&& after.balance_of(caller) == ledger.balance_of(caller) - RENT_COST
            &&& after.balance_of(caller) < ledger.balance_of(caller)
            &&& after.player(caller).cores_rented == ledger.player(caller).cores_rented + 1
            &&& forall|other: AccountId|
                other != caller ==> after.balance_of(other) == ledger.balance_of(other)
                    && after.player(other) == ledger.player(other)
        }),
{
}

/// Paying in an amount and then paying the same amount out leaves every
/// balance as it was before, provided the host's transfer goes through (or
/// the amount is zero and none is needed). If the transfer fails, the
/// withdrawal fails with `TransferFailed`.
pub proof fn law_deposit_withdraw_round_trip(
    ledger: CoretimeClickerView,
    caller: AccountId,
    amount: Balance,
    transferred: bool,
)
    requires
        ledger.deposit_error(caller, amount) is None,
    ensures
        ({
            let paid_in = ledger.after_deposit(caller, amount);
            let paid_out = paid_in.after_withdraw(caller, amount);
            &&& amount == 0 || transferred ==> {
                &&& paid_in.withdraw_error(caller, amount, transferred) is None
                &&& forall|account: AccountId|
                    paid_out.balance_of(account) == ledger.balance_of(account)
                &&& paid_out.players == ledger.players
                &&& paid_out.total_cores_rented == ledger.total_cores_rented
                &&& paid_out.jackpot_seed == ledger.jackpot_seed
            }
            &&& amount > 0 && !transferred ==> paid_in.withdraw_error(caller, amount, transferred)
                == Some(ContractError::TransferFailed)
        }),
{
}

/// After a claim at some block, a further claim by the same account at that
/// block or an earlier one is refused with `NothingToClaim`: no reward is
/// paid twice.
pub proof fn law_no_second_claim_in_a_block(
    ledger: CoretimeClickerView,
    caller: AccountId,
    block_number: BlockNumber,
    again: BlockNumber,
)
    requires
        ledger.claim_reward_error(caller, block_number) is None,
        again <= block_number,
    ensures
        ledger.after_claim_reward(caller, block_number).claim_reward_error(caller, again) == Some(
            ContractError::NothingToClaim,
        ),
        ledger.after_claim_reward(caller, block_number).player(caller).pending_reward(again) == 0,
{
}

/// Every sequence of calls leaves a valid ledger valid: at every moment a
/// boom is running exactly while boosted claims remain.
pub proof fn law_calls_keep_validity(ledger: CoretimeClickerView, calls: Seq<LedgerCall>)
    requires
        ledger.valid(),
    ensures
        ledger.after_calls(calls).valid(),
    decreases calls.len(),
{
    if calls.len() > 0 {
        law_calls_keep_validity(ledger, calls.drop_last());
        let before = ledger.after_calls(calls.drop_last());
        match calls.last() {
            LedgerCall::RentCore { caller, block_number } => {
                law_steps_keep_validity(before, caller, 0, block_number);
            },
            LedgerCall::Deposit { caller, amount } => {
                law_steps_keep_validity(before, caller, amount, 0);
            },
            LedgerCall::Withdraw { caller, amount, transferred } => {
                law_steps_keep_validity(before, caller, amount, 0);
            },
            LedgerCall::ClaimReward { caller, block_number } => {
                law_steps_keep_validity(before, caller, 0, block_number);
            },
        }
    }
}

/// No call takes a core away, sets the block of the last claim back or
/// lowers a total of rewards.
pub proof fn law_calls_only_advance(
    ledger: CoretimeClickerView,
    calls: Seq<LedgerCall>,
    account: AccountId,
)
    ensures
        ledger.after_calls(calls).player(account).cores_rented >= ledger.player(
            account,
        ).cores_rented,
        ledger.after_calls(calls).player(account).last_claim_block >= ledger.player(
            account,
        ).last_claim_block,
        ledger.after_calls(calls).player(account).total_rewards >= ledger.player(
            account,
        ).total_rewards,
    decreases calls.len(),
{
    if calls.len() > 0 {
        law_calls_only_advance(ledger, calls.drop_last(), account);
        let before = ledger.after_calls(calls.drop_last());
        let after = before.after_call(calls.last());
        if before.call_error(calls.last()) is None {
            match calls.last() {
                LedgerCall::ClaimReward { caller, block_number } => {
                    let paid = before.player(caller).pending_reward(block_number);
                    assert(paid >= 0) by (nonlinear_arith)
                        requires
                            paid == before.player(caller).cores_rented * (block_number
                                - before.player(caller).last_claim_block) * BASE_RATE
                                * before.player(caller).multiplier(),
                            before.player(caller).cores_rented >= 0,
                            block_number - before.player(caller).last_claim_block >= 0,
                            BASE_RATE == 10,
                            before.player(caller).multiplier() >= 1,
                    ;
                },
                _ => {},
            }
        }
    }
}

/// No reward is paid twice: once an account has claimed at some block, every
/// later claim by that account at that block or an earlier one is refused
/// with `NothingToClaim`, whatever calls were made in between.
pub proof fn law_no_reward_is_paid_twice(
    ledger: CoretimeClickerView,
    caller: AccountId,
    block_number: BlockNumber,
    calls: Seq<LedgerCall>,
    again: BlockNumber,
)
    requires
        ledger.claim_reward_error(caller, block_number) is None,
        again <= block_number,
    ensures
        ledger.after_claim_reward(caller, block_number).after_calls(calls).claim_reward_error(
            caller,
            again,
        ) == Some(ContractError::NothingToClaim),
{
    law_calls_only_advance(ledger.after_claim_reward(caller, block_number), calls, caller);
}

/// A call touches no account but its caller's: every other account keeps
/// its record and its balance. And a call changes the caller's balance by
/// exactly what it says: a rental takes the price, a deposit adds the
/// amount, a withdrawal takes the amount, a claim leaves it alone.
pub proof fn law_call_touches_only_its_caller(
    ledger: CoretimeClickerView,
    call: LedgerCall,
    account: AccountId,
)
    ensures
        account != call.caller() ==> {
            &&& ledger.after_call(call).player(account) == ledger.player(account)
            &&& ledger.after_call(call).balance_of(account) == ledger.balance_of(account)
        },
        ledger.call_error(call) is Some ==> ledger.after_call(call) == ledger,
        ledger.call_error(call) is None ==> ledger.after_call(call).balance_of(call.caller())
            == ledger.balance_of(call.caller()) + (match call {
            LedgerCall::RentCore { .. } => -(RENT_COST as int),
            LedgerCall::Deposit { amount, .. } => amount as int,
            LedgerCall::Withdraw { amount, .. } => -(amount as int),
            LedgerCall::ClaimReward { .. } => 0int,
        }),
{
}

/// On a valid record the factor applied to a claim is the multiplier
/// itself, one or two.
pub proof fn law_claim_applies_the_multiplier(player: Player)
    requires
        player.valid(),
    ensures
        player.multiplier() == player.active_multiplier,
        1 <= player.multiplier() <= 2,
{
}

/// An account the ledger has not seen reads as the default status at every
/// block: no cores, no rewards, nothing pending, a multiplier of one and no
/// boosted claims. It stays unseen until it rents or claims itself.
pub proof fn law_unseen_account_reads_default(
    ledger: CoretimeClickerView,
    account: AccountId,
    current_block: BlockNumber,
    call: LedgerCall,
)
    requires
        !ledger.players.contains_key(account),
    ensures
        ledger.player(account).status(current_block) == PlayerStatus::spec_default(),
        ledger.player(account).valid(),
        call.caller() != account ==> !ledger.after_call(call).players.contains_key(account),
{
}

} // verus!
