//! The pooled lottery: paid entries are collected into the open draw, a rake
//! is set aside from each fee, the admin closes the draw by picking a winner,
//! and the winner claims the escrowed prize.
//!
//! The pool never moves money itself. Where a call pays out, the host first
//! asks which transfer the call needs ([`PrizePool::prize_payout`],
//! [`PrizePool::rake_payout`]), attempts it, and then makes the call with the
//! answer; a call whose transfer failed leaves the pool as it was.

use crate::account::{AccountId, Balance, BlockNumber, Timestamp, Transfer};
use vstd::prelude::*;

verus! {

/// The number of basis points in the whole.
pub const BASIS_POINTS_DENOMINATOR: u16 = 10_000;

/// One paid entry. Never changed once recorded.
#[derive(Debug, Clone, Copy, PartialEq, Eq)]
pub struct Entry {
    pub player: AccountId,
    pub entry_fee: Balance,
    pub draw_id: u32,
    pub block_number: BlockNumber,
}

/// One closed draw.
///
/// `prize_amount` is set when the draw is executed and falls to zero once the
/// prize is claimed. A `winner` of all zero bytes stands for "no winner" and
/// an `executed_at_block` of `u32::MAX` for "not executed"; neither kind of
/// draw can be claimed.
#[derive(Debug, Clone, Copy, PartialEq, Eq)]
pub struct Draw {
    pub draw_id: u32,
    pub winner: AccountId,
    pub prize_amount: Balance,
    pub entry_count: u32,
    pub executed_at_block: BlockNumber,
}

/// A summary of the pool and of its open draw.
#[derive(Debug, Clone, Copy, PartialEq, Eq)]
pub struct PoolInfo {
    pub pool_balance: Balance,
    pub rake_balance: Balance,
    pub entry_count: u32,
    pub draw_id: u32,
    pub is_paused: bool,
}

/// Why a call on the pool failed.
#[derive(Debug, Clone, Copy, PartialEq, Eq, Structural)]
pub enum ContractError {
    Paused,
    Unauthorized,
    InvalidEntryFee,
    EntryFeeTooHigh,
    MaxEntriesReached,
    InsufficientBalance,
    TransferFailed,
    NoEntries,
    NotWinner,
    AlreadyClaimed,
    InvalidDraw,
    RNGError,
}

/// Published when an entry is accepted.
#[derive(Debug, Clone, Copy, PartialEq, Eq)]
pub struct EntrySubmitted {
    pub player: AccountId,
    pub entry_id: u32,
    pub entry_fee: Balance,
    pub draw_id: u32,
    pub block_number: BlockNumber,
}

/// Published when a draw is executed.
#[derive(Debug, Clone, Copy, PartialEq, Eq)]
pub struct DrawExecuted {
    pub draw_id: u32,
    pub winner: AccountId,
    pub prize_amount: Balance,
    pub entry_count: u32,
    pub block_number: BlockNumber,
}

/// Published when a prize is paid out.
#[derive(Debug, Clone, Copy, PartialEq, Eq)]
pub struct PrizeClaimed {
    pub winner: AccountId,
    pub draw_id: u32,
    pub amount: Balance,
}

/// Published when the rake is paid out.
#[derive(Debug, Clone, Copy, PartialEq, Eq)]
pub struct RakeWithdrawn {
    pub admin: AccountId,
    pub amount: Balance,
}

/// Published when the pool is paused.
#[derive(Debug, Clone, Copy, PartialEq, Eq)]
pub struct Paused {
    pub by: AccountId,
}

/// Published when the pool is unpaused.
#[derive(Debug, Clone, Copy, PartialEq, Eq)]
pub struct Unpaused {
    pub by: AccountId,
}

/// The event of a change of the pause switch.
#[derive(Debug, Clone, Copy, PartialEq, Eq)]
pub enum PauseChange {
    Paused(Paused),
    Unpaused(Unpaused),
}

/// The part of the fee that is kept as rake: `fee * rake_bps / 10000`,
/// rounded down.
pub open spec fn rake_of(entry_fee: Balance, rake_bps: u16) -> int {
    (entry_fee * rake_bps) / 10000
}

/// The seed a draw is decided by: block height, timestamp and draw id, added
/// modulo 2^64.
pub open spec fn draw_seed(
    block_number: BlockNumber,
    block_timestamp: Timestamp,
    draw_id: u32,
) -> int {
    (block_number + block_timestamp + draw_id) % 0x1_0000_0000_0000_0000
}

/// The position, among `entry_count` entrants, of the winner of a draw.
pub open spec fn winner_index(
    block_number: BlockNumber,
    block_timestamp: Timestamp,
    draw_id: u32,
    entry_count: int,
) -> int {
    draw_seed(block_number, block_timestamp, draw_id) % entry_count
}

/// The prizes of the given draws that are still to be claimed, added up.
pub open spec fn escrowed(draws: Seq<Draw>) -> int
    decreases draws.len(),
{
    if draws.len() == 0 {
        0
    } else {
        escrowed(draws.drop_last()) + draws.last().prize_amount
    }
}

/// One call on the pool, with everything the host supplies to it.
pub enum PoolCall {
    EnterJackpot { caller: AccountId, entry_fee: Balance, block_number: BlockNumber },
    ExecuteDraw { caller: AccountId, block_number: BlockNumber, block_timestamp: Timestamp },
    ClaimPrize { caller: AccountId, draw_id: u32, transferred: bool },
    WithdrawRake { caller: AccountId, transferred: bool },
    SetPaused { caller: AccountId, paused: bool },
    SetRakeBps { caller: AccountId, rake_bps: u16 },
}

/// What a pool is, apart from how it is stored.
pub struct PrizePoolView {
    /// The prize money of the open draw.
    pub pool_balance: Balance,
    /// The rake collected and not yet withdrawn.
    pub rake_balance: Balance,
    pub rake_bps: u16,
    /// Every entry ever accepted; an entry's id is its position.
    pub entries: Seq<Entry>,
    /// Every executed draw; a draw's id is its position. The open draw has
    /// the id `draws.len()`.
    pub draws: Seq<Draw>,
    pub is_paused: bool,
    pub admin: AccountId,
    /// The oracle the pool was configured with. No operation consults it.
    pub rng_address: AccountId,
    pub max_entries_per_draw: u32,
    pub max_entry_fee: Balance,
    /// The players of the open draw, in the order in which they entered.
    pub entrants: Seq<AccountId>,
}

impl PrizePoolView {
    /// What holds of every pool: ids fit their counters, the open draw is
    /// within its limit, every executed draw carries its own id and had an
    /// entrant, and the entries of the open draw are the last ones recorded.
    pub open spec fn valid(self) -> bool {
        &&& self.entries.len() <= u32::MAX
        &&& self.draws.len() <= u32::MAX
        &&& self.entrants.len() <= self.max_entries_per_draw
        &&& self.entrants.len() <= self.entries.len()
        &&& forall|d: int|
            0 <= d < self.draws.len() ==> {
                &&& (#[trigger] self.draws[d]).draw_id == d
                &&& self.draws[d].entry_count >= 1
            }
        &&& forall|k: int|
            0 <= k < self.entrants.len() ==> {
                &&& (#[trigger] self.open_entry(k)).player == self.entrants[k]
                &&& self.open_entry(k).draw_id == self.draws.len()
            }
    }

    /// The entry of the `k`-th entrant of the open draw: the open draw's
    /// entries are the last ones recorded.
    pub open spec fn open_entry(self, k: int) -> Entry {
        self.entries[self.entries.len() - self.entrants.len() + k]
    }

    /// The pool right after construction.
    pub open spec fn initial(
        admin: AccountId,
        rake_bps: u16,
        rng_address: AccountId,
        max_entries_per_draw: u32,
        max_entry_fee: Balance,
    ) -> PrizePoolView {
        PrizePoolView {
            pool_balance: 0,
            rake_balance: 0,
            rake_bps,
            entries: Seq::empty(),
            draws: Seq::empty(),
            is_paused: false,
            admin,
            rng_address,
            max_entries_per_draw,
            max_entry_fee,
            entrants: Seq::empty(),
        }
    }

    /// The error with which an entry is refused, if it is.
    pub open spec fn enter_jackpot_error(self, caller: AccountId, entry_fee: Balance) -> Option<
        ContractError,
    > {
        let rake = rake_of(entry_fee, self.rake_bps);
        if self.is_paused {
            Some(ContractError::Paused)
        } else if caller == self.admin {
            Some(ContractError::Unauthorized)
        } else if entry_fee == 0 {
            Some(ContractError::InvalidEntryFee)
        } else if entry_fee > self.max_entry_fee {
            Some(ContractError::EntryFeeTooHigh)
        } else if self.entrants.len() >= self.max_entries_per_draw {
            Some(ContractError::MaxEntriesReached)
        } else if entry_fee * self.rake_bps > u128::MAX || rake > entry_fee || self.pool_balance
            + (entry_fee - rake) > u128::MAX || self.rake_balance + rake > u128::MAX
            || self.entries.len() >= u32::MAX {
            Some(ContractError::InsufficientBalance)
        } else {
            None
        }
    }

    /// The entry that an accepted call records.
    pub open spec fn new_entry(
        self,
        caller: AccountId,
        entry_fee: Balance,
        block_number: BlockNumber,
    ) -> Entry {
        Entry { player: caller, entry_fee, draw_id: self.draws.len() as u32, block_number }
    }

    /// The pool after an accepted entry.
    pub open spec fn after_enter_jackpot(
        self,
        caller: AccountId,
        entry_fee: Balance,
        block_number: BlockNumber,
    ) -> PrizePoolView {
        let rake = rake_of(entry_fee, self.rake_bps);
        PrizePoolView {
            pool_balance: (self.pool_balance + (entry_fee - rake)) as Balance,
            rake_balance: (self.rake_balance + rake) as Balance,
            entries: self.entries.push(self.new_entry(caller, entry_fee, block_number)),
            entrants: self.entrants.push(caller),
            ..self
        }
    }

    /// The error with which the execution of the open draw is refused, if it
    /// is.
    pub open spec fn execute_draw_error(self, caller: AccountId) -> Option<ContractError> {
        if self.is_paused {
            Some(ContractError::Paused)
        } else if caller != self.admin {
            Some(ContractError::Unauthorized)
        } else if self.entrants.len() == 0 {
            Some(ContractError::NoEntries)
        } else if self.draws.len() >= u32::MAX {
            Some(ContractError::InsufficientBalance)
        } else {
            None
        }
    }

    /// The record of the open draw, were it executed now.
    pub open spec fn drawn(self, block_number: BlockNumber, block_timestamp: Timestamp) -> Draw {
        let draw_id = self.draws.len() as u32;
        let entry_count = self.entrants.len() as int;
        Draw {
            draw_id,
            winner: self.entrants[winner_index(
                block_number,
                block_timestamp,
                draw_id,
                entry_count,
            )],
            prize_amount: self.pool_balance,
            entry_count: entry_count as u32,
            executed_at_block: block_number,
        }
    }

    /// The pool after the open draw has been executed: the prize is escrowed
    /// in the draw's record, and a new draw is open and empty.
    pub open spec fn after_execute_draw(
        self,
        block_number: BlockNumber,
        block_timestamp: Timestamp,
    ) -> PrizePoolView {
        PrizePoolView {
            pool_balance: 0,
            draws: self.draws.push(self.drawn(block_number, block_timestamp)),
            entrants: Seq::empty(),
            ..self
        }
    }

    /// Whether the draw exists, was executed and has a winner.
    pub open spec fn claimable_draw(self, draw_id: u32) -> bool {
        &&& draw_id < self.draws.len()
        &&& self.draws[draw_id as int].executed_at_block != u32::MAX
        &&& !self.draws[draw_id as int].winner.is_zero_spec()
    }

    /// The error with which a claim is refused before any transfer is
    /// attempted, if it is.
    pub open spec fn claim_prize_refusal(self, caller: AccountId, draw_id: u32) -> Option<
        ContractError,
    > {
        if !self.claimable_draw(draw_id) {
            Some(ContractError::InvalidDraw)
        } else if self.draws[draw_id as int].winner != caller {
            Some(ContractError::NotWinner)
        } else if self.draws[draw_id as int].prize_amount == 0 {
            Some(ContractError::AlreadyClaimed)
        } else {
            None
        }
    }

    /// The error with which a claim fails, if it does, where `transferred`
    /// says whether the host's transfer of the prize went through.
    pub open spec fn claim_prize_error(
        self,
        caller: AccountId,
        draw_id: u32,
        transferred: bool,
    ) -> Option<ContractError> {
        if self.claim_prize_refusal(caller, draw_id) is Some {
            self.claim_prize_refusal(caller, draw_id)
        } else if !transferred {
            Some(ContractError::TransferFailed)
        } else {
            None
        }
    }

    /// The pool after the prize of `draw_id` has been paid out: the draw's
    /// prize is zero, which marks it as claimed.
    pub open spec fn after_claim_prize(self, draw_id: u32) -> PrizePoolView {
        PrizePoolView {
            draws: self.draws.update(
                draw_id as int,
                Draw { prize_amount: 0, ..self.draws[draw_id as int] },
            ),
            ..self
        }
    }

    /// The error with which a withdrawal of the rake fails, if it does, where
    /// `transferred` says whether the host's transfer of the rake went
    /// through.
    pub open spec fn withdraw_rake_error(self, caller: AccountId, transferred: bool) -> Option<
        ContractError,
    > {
        if caller != self.admin {
            Some(ContractError::Unauthorized)
        } else if self.rake_balance != 0 && !transferred {
            Some(ContractError::TransferFailed)
        } else {
            None
        }
    }

    /// The pool after the rake has been paid out.
    pub open spec fn after_withdraw_rake(self) -> PrizePoolView {
        PrizePoolView { rake_balance: 0, ..self }
    }

    /// The error with which a change of configuration is refused, if it is.
    pub open spec fn admin_error(self, caller: AccountId) -> Option<ContractError> {
        if caller != self.admin {
            Some(ContractError::Unauthorized)
        } else {
            None
        }
    }

    /// The pool after the pause switch has been set.
    pub open spec fn after_set_paused(self, paused: bool) -> PrizePoolView {
        PrizePoolView { is_paused: paused, ..self }
    }

    /// The pool after the rake has been set.
    pub open spec fn after_set_rake_bps(self, rake_bps: u16) -> PrizePoolView {
        PrizePoolView { rake_bps, ..self }
    }

    /// The error with which a new rake is refused, if it is.
    pub open spec fn set_rake_bps_error(self, caller: AccountId, rake_bps: u16) -> Option<
        ContractError,
    > {
        if caller != self.admin {
            Some(ContractError::Unauthorized)
        } else if rake_bps > BASIS_POINTS_DENOMINATOR {
            Some(ContractError::InvalidEntryFee)
        } else {
            None
        }
    }

    /// The error with which `call` fails on this pool, if it does.
    pub open spec fn call_error(self, call: PoolCall) -> Option<ContractError> {
        match call {
            PoolCall::EnterJackpot { caller, entry_fee, .. } => self.enter_jackpot_error(
                caller,
                entry_fee,
            ),
            PoolCall::ExecuteDraw { caller, .. } => self.execute_draw_error(caller),
            PoolCall::ClaimPrize { caller, draw_id, transferred } => self.claim_prize_error(
                caller,
                draw_id,
                transferred,
            ),
            PoolCall::WithdrawRake { caller, transferred } => self.withdraw_rake_error(
                caller,
                transferred,
            ),
            PoolCall::SetPaused { caller, .. } => self.admin_error(caller),
            PoolCall::SetRakeBps { caller, rake_bps } => self.set_rake_bps_error(caller, rake_bps),
        }
    }

    /// The pool after `call`: as it was where the call fails, and as the
    /// operation leaves it where it succeeds.
    pub open spec fn after_call(self, call: PoolCall) -> PrizePoolView {
        if self.call_error(call) is Some {
            self
        } else {
            match call {
                PoolCall::EnterJackpot {
                    caller,
                    entry_fee,
                    block_number,
                } => self.after_enter_jackpot(caller, entry_fee, block_number),
                PoolCall::ExecuteDraw {
                    block_number,
                    block_timestamp,
                    ..
                } => self.after_execute_draw(block_number, block_timestamp),
                PoolCall::ClaimPrize { draw_id, .. } => self.after_claim_prize(draw_id),
                PoolCall::WithdrawRake { .. } => self.after_withdraw_rake(),
                PoolCall::SetPaused { paused, .. } => self.after_set_paused(paused),
                PoolCall::SetRakeBps { rake_bps, .. } => self.after_set_rake_bps(rake_bps),
            }
        }
    }

    /// The pool after a sequence of calls, made one after the other.
    pub open spec fn after_calls(self, calls: Seq<PoolCall>) -> PrizePoolView
        decreases calls.len(),
    {
        if calls.len() == 0 {
            self
        } else {
            self.after_calls(calls.drop_last()).after_call(calls.last())
        }
    }

    /// The money the pool answers for: the prize of the open draw, the rake
    /// not yet withdrawn, and the prizes not yet claimed.
    pub open spec fn holdings(self) -> int {
        self.pool_balance + self.rake_balance + escrowed(self.draws)
    }

    /// What `call` pays into the pool where it succeeds: the fee of an
    /// entry.
    pub open spec fn paid_in(self, call: PoolCall) -> int {
        match call {
            PoolCall::EnterJackpot { entry_fee, .. } => entry_fee as int,
            _ => 0,
        }
    }

    /// What `call` pays out of the pool where it succeeds: the prize of a
    /// claim, or the rake.
    pub open spec fn paid_out(self, call: PoolCall) -> int {
        match call {
            PoolCall::ClaimPrize { draw_id, .. } => self.draws[draw_id as int].prize_amount as int,
            PoolCall::WithdrawRake { .. } => self.rake_balance as int,
            _ => 0,
        }
    }

    /// What a sequence of calls pays in less what it pays out, counting the
    /// calls that succeed.
    pub open spec fn net_flow(self, calls: Seq<PoolCall>) -> int
        decreases calls.len(),
    {
        if calls.len() == 0 {
            0
        } else {
            let before = self.after_calls(calls.drop_last());
            self.net_flow(calls.drop_last()) + (if before.call_error(calls.last()) is None {
                before.paid_in(calls.last()) - before.paid_out(calls.last())
            } else {
                0
            })
        }
    }

    /// The summary of the pool.
    pub open spec fn pool_info(self) -> PoolInfo {
        PoolInfo {
            pool_balance: self.pool_balance,
            rake_balance: self.rake_balance,
            entry_count: self.entrants.len() as u32,
            draw_id: self.draws.len() as u32,
            is_paused: self.is_paused,
        }
    }
}

/// Everything a pool holds, as plain data: what a host keeps between one
/// call and the next.
pub struct PrizePoolState {
    pub pool_balance: Balance,
    pub rake_balance: Balance,
    pub rake_bps: u16,
    pub entries: Vec<Entry>,
    pub draws: Vec<Draw>,
    pub is_paused: bool,
    pub admin: AccountId,
    pub rng_address: AccountId,
    pub max_entries_per_draw: u32,
    pub max_entry_fee: Balance,
    pub entrants: Vec<AccountId>,
}

impl View for PrizePoolState {
    type V = PrizePoolView;

    open spec fn view(&self) -> PrizePoolView {
        PrizePoolView {
            pool_balance: self.pool_balance,
            rake_balance: self.rake_balance,
            rake_bps: self.rake_bps,
            entries: self.entries@,
            draws: self.draws@,
            is_paused: self.is_paused,
            admin: self.admin,
            rng_address: self.rng_address,
            max_entries_per_draw: self.max_entries_per_draw,
            max_entry_fee: self.max_entry_fee,
            entrants: self.entrants@,
        }
    }
}

/// The lottery.
pub struct PrizePool {
    pool_balance: Balance,
    rake_balance: Balance,
    rake_bps: u16,
    entries: Vec<Entry>,
    entry_counter: u32,
    draw_counter: u32,
    draws: Vec<Draw>,
    is_paused: bool,
    admin: AccountId,
    rng_address: AccountId,
    max_entries_per_draw: u32,
    max_entry_fee: Balance,
    entrants: Vec<AccountId>,
}

impl View for PrizePool {
    type V = PrizePoolView;

    closed spec fn view(&self) -> PrizePoolView {
        PrizePoolView {
            pool_balance: self.pool_balance,
            rake_balance: self.rake_balance,
            rake_bps: self.rake_bps,
            entries: self.entries@,
            draws: self.draws@,
            is_paused: self.is_paused,
            admin: self.admin,
            rng_address: self.rng_address,
            max_entries_per_draw: self.max_entries_per_draw,
            max_entry_fee: self.max_entry_fee,
            entrants: self.entrants@,
        }
    }
}

impl PrizePool {
    /// The counters agree with what is stored, and the view is valid.
    pub closed spec fn wf(&self) -> bool {
        &&& self.entries.len() == self.entry_counter
        &&& self.draws.len() == self.draw_counter
        &&& self@.valid()
    }

    /// A well-formed pool has a valid view.
    pub proof fn lemma_wf_valid(&self)
        requires
            self.wf(),
        ensures
            self@.valid(),
    {
    }

    /// An empty, unpaused pool with the given configuration.
    pub fn new(
        admin: AccountId,
        rake_bps: u16,
        rng_address: AccountId,
        max_entries_per_draw: u32,
        max_entry_fee: Balance,
    ) -> (pool: PrizePool)
        ensures
            pool.wf(),
            pool@ == PrizePoolView::initial(
                admin,
                rake_bps,
                rng_address,
                max_entries_per_draw,
                max_entry_fee,
            ),
    {
        PrizePool {
            pool_balance: 0,
            rake_balance: 0,
            rake_bps,
            entries: Vec::new(),
            entry_counter: 0,
            draw_counter: 0,
            draws: Vec::new(),
            is_paused: false,
            admin,
            rng_address,
            max_entries_per_draw,
            max_entry_fee,
            entrants: Vec::new(),
        }
    }

    /// The pool as plain data.
    pub fn into_state(self) -> (state: PrizePoolState)
        requires
            self.wf(),
        ensures
            state@ == self@,
            state@.valid(),
    {
        PrizePoolState {
            pool_balance: self.pool_balance,
            rake_balance: self.rake_balance,
            rake_bps: self.rake_bps,
            entries: self.entries,
            draws: self.draws,
            is_paused: self.is_paused,
            admin: self.admin,
            rng_address: self.rng_address,
            max_entries_per_draw: self.max_entries_per_draw,
            max_entry_fee: self.max_entry_fee,
            entrants: self.entrants,
        }
    }

    /// The pool that the plain data stands for, unless the data is not
    /// valid.
    pub fn from_state(state: PrizePoolState) -> (r: Option<PrizePool>)
        ensures
            r is Some <==> state@.valid(),
            r matches Some(pool) ==> pool.wf() && pool@ == state@,
    {
        let entry_count = state.entries.len();
        let draw_count = state.draws.len();
        let entrant_count = state.entrants.len();
        if entry_count > u32::MAX as usize || draw_count > u32::MAX as usize || entrant_count
            > state.max_entries_per_draw as usize || entrant_count > entry_count {
            return None;
        }
        let mut d: usize = 0;
        while d < draw_count
            invariant
                d <= draw_count == state.draws.len() <= u32::MAX,
                forall|i: int|
                    0 <= i < d ==> {
                        &&& (#[trigger] state.draws[i]).draw_id == i
                        &&& state.draws[i].entry_count >= 1
                    },
            decreases draw_count - d,
        {
            if state.draws[d].draw_id != d as u32 || state.draws[d].entry_count < 1 {
                return None;
            }
            d += 1;
        }
        let first_open = entry_count - entrant_count;
        let mut k: usize = 0;
        while k < entrant_count
            invariant
                k <= entrant_count == state.entrants.len() <= state.entries.len() == entry_count,
                first_open == entry_count - entrant_count,
                draw_count == state.draws.len() <= u32::MAX,
                forall|i: int|
                    0 <= i < k ==> {
                        &&& (#[trigger] state@.open_entry(i)).player == state.entrants[i]
                        &&& state@.open_entry(i).draw_id == state.draws.len()
                    },
            decreases entrant_count - k,
        {
            let entry = state.entries[first_open + k];
            assert(entry == state@.open_entry(k as int));
            if entry.player != state.entrants[k] || entry.draw_id != draw_count as u32 {
                return None;
            }
            k += 1;
        }
        Some(
            PrizePool {
                pool_balance: state.pool_balance,
                rake_balance: state.rake_balance,
                rake_bps: state.rake_bps,
                entries: state.entries,
                entry_counter: entry_count as u32,
                draw_counter: draw_count as u32,
                draws: state.draws,
                is_paused: state.is_paused,
                admin: state.admin,
                rng_address: state.rng_address,
                max_entries_per_draw: state.max_entries_per_draw,
                max_entry_fee: state.max_entry_fee,
                entrants: state.entrants,
            },
        )
    }

    /// Enters `caller` into the open draw for `entry_fee`, the value attached
    /// to the call, and returns the new entry's id and its event.
    ///
    /// The fee is split into the rake, `rake_of(entry_fee, rake_bps)`, and the
    /// rest, which goes to the prize pool. A refused call changes nothing.
    pub fn enter_jackpot(
        &mut self,
        caller: AccountId,
        entry_fee: Balance,
        block_number: BlockNumber,
    ) -> (r: Result<(u32, EntrySubmitted), ContractError>)
        requires
            old(self).wf(),
        ensures
            final(self).wf(),
            final(self)@ == old(self)@.after_call(
                PoolCall::EnterJackpot { caller, entry_fee, block_number },
            ),
            match r {
                Ok((entry_id, event)) => {
                    &&& old(self)@.enter_jackpot_error(caller, entry_fee) is None
                    &&& final(self)@ == old(self)@.after_enter_jackpot(
                        caller,
                        entry_fee,
                        block_number,
                    )
                    &&& entry_id == old(self)@.entries.len()
                    &&& event == (EntrySubmitted {
                        player: caller,
                        entry_id,
                        entry_fee,
                        draw_id: old(self)@.draws.len() as u32,
                        block_number,
                    })
                },
                Err(e) => {
                    &&& old(self)@.enter_jackpot_error(caller, entry_fee) == Some(e)
                    &&& final(self)@ == old(self)@
                },
            },
    {
        if self.is_paused {
            return Err(ContractError::Paused);
        }
        if caller == self.admin {
            return Err(ContractError::Unauthorized);
        }
        if entry_fee == 0 {
            return Err(ContractError::InvalidEntryFee);
        }
        if entry_fee > self.max_entry_fee {
            return Err(ContractError::EntryFeeTooHigh);
        }
        let current_draw = self.draw_counter;
        let entry_count = self.entrants.len();
        if entry_count >= self.max_entries_per_draw as usize {
            return Err(ContractError::MaxEntriesReached);
        }
        let product = match entry_fee.checked_mul(self.rake_bps as u128) {
            Some(p) => p,
            None => return Err(ContractError::InsufficientBalance),
        };
        let rake_amount = product / 10_000;
        let prize_amount = match entry_fee.checked_sub(rake_amount) {
            Some(p) => p,
            None => return Err(ContractError::InsufficientBalance),
        };
        let pool_balance = match self.pool_balance.checked_add(prize_amount) {
            Some(b) => b,
            None => return Err(ContractError::InsufficientBalance),
        };
        let rake_balance = match self.rake_balance.checked_add(rake_amount) {
            Some(b) => b,
            None => return Err(ContractError::InsufficientBalance),
        };
        let entry_id = self.entry_counter;
        let entry_counter = match entry_id.checked_add(1) {
            Some(c) => c,
            None => return Err(ContractError::InsufficientBalance),
        };
        let entry = Entry { player: caller, entry_fee, draw_id: current_draw, block_number };
        self.pool_balance = pool_balance;
        self.rake_balance = rake_balance;
        self.entries.push(entry);
        self.entrants.push(caller);
        self.entry_counter = entry_counter;
        proof {
            let before = old(self)@;
            let after = self@;
            assert(after.entries == before.entries.push(entry));
            assert(after.entrants == before.entrants.push(caller));
            assert(after == before.after_enter_jackpot(caller, entry_fee, block_number));
            law_entry_conserves_fee(before, caller, entry_fee, block_number);
        }
        Ok(
            (
                entry_id,
                EntrySubmitted {
                    player: caller,
                    entry_id,
                    entry_fee,
                    draw_id: current_draw,
                    block_number,
                },
            ),
        )
    }

    /// Executes the open draw at the given block: picks the entrant at
    /// position `winner_index(..)`, records the draw with the whole prize
    /// pool as its prize, empties the pool and opens the next draw.
    ///
    /// Only the admin may do so, and only while the pool is not paused and
    /// the draw has an entrant. A refused call changes nothing.
    pub fn execute_draw(
        &mut self,
        caller: AccountId,
        block_number: BlockNumber,
        block_timestamp: Timestamp,
    ) -> (r: Result<DrawExecuted, ContractError>)
        requires
            old(self).wf(),
        ensures
            final(self).wf(),
            final(self)@ == old(self)@.after_call(
                PoolCall::ExecuteDraw { caller, block_number, block_timestamp },
            ),
            match r {
                Ok(event) => {
                    let draw = old(self)@.drawn(block_number, block_timestamp);
                    let index = winner_index(
                        block_number,
                        block_timestamp,
                        draw.draw_id,
                        old(self)@.entrants.len() as int,
                    );
                    &&& old(self)@.execute_draw_error(caller) is None
                    &&& final(self)@ == old(self)@.after_execute_draw(block_number, block_timestamp)
                    &&& 0 <= index < old(self)@.entrants.len()
                    &&& draw.winner == old(self)@.entrants[index]
                    &&& event == (DrawExecuted {
                        draw_id: draw.draw_id,
                        winner: draw.winner,
                        prize_amount: draw.prize_amount,
                        entry_count: draw.entry_count,
                        block_number,
                    })
                },
                Err(e) => {
                    &&& old(self)@.execute_draw_error(caller) == Some(e)
                    &&& e != ContractError::RNGError
                    &&& final(self)@ == old(self)@
                },
            },
    {
        if self.is_paused {
            return Err(ContractError::Paused);
        }
        if caller != self.admin {
            return Err(ContractError::Unauthorized);
        }
        let draw_id = self.draw_counter;
        let entry_count = self.entrants.len();
        if entry_count == 0 {
            return Err(ContractError::NoEntries);
        }
        let draw_counter = match draw_id.checked_add(1) {
            Some(c) => c,
            None => return Err(ContractError::InsufficientBalance),
        };
        let random_seed = (block_number as u64).wrapping_add(block_timestamp).wrapping_add(
            draw_id as u64,
        );
        assert(random_seed == draw_seed(block_number, block_timestamp, draw_id));
        let position = random_seed % (entry_count as u64);
        let winner = self.entrants[position as usize];
        let prize_amount = self.pool_balance;
        let draw = Draw {
            draw_id,
            winner,
            prize_amount,
            entry_count: entry_count as u32,
            executed_at_block: block_number,
        };
        self.draws.push(draw);
        self.pool_balance = 0;
        self.draw_counter = draw_counter;
        self.entrants = Vec::new();
        proof {
            let before = old(self)@;
            assert(draw == before.drawn(block_number, block_timestamp));
            assert(self@.draws == before.draws.push(draw));
            assert(self@.entrants == Seq::<AccountId>::empty());
            assert(self@ == before.after_execute_draw(block_number, block_timestamp));
            lemma_execute_draw_keeps_validity(before, caller, block_number, block_timestamp);
        }
        Ok(
            DrawExecuted {
                draw_id,
                winner,
                prize_amount,
                entry_count: entry_count as u32,
                block_number,
            },
        )
    }

    /// The transfer that a claim of `draw_id` by `caller` needs: the prize,
    /// to the caller, where the claim is not refused outright; otherwise
    /// none.
    pub fn prize_payout(&self, caller: AccountId, draw_id: u32) -> (r: Option<Transfer>)
        requires
            self.wf(),
        ensures
            r == (if self@.claim_prize_refusal(caller, draw_id) is None {
                Some(Transfer { to: caller, amount: self@.draws[draw_id as int].prize_amount })
            } else {
                None
            }),
    {
        match self.check_claim(caller, draw_id) {
            Ok(amount) => Some(Transfer { to: caller, amount }),
            Err(_) => None,
        }
    }

    /// The prize that `caller` may claim from `draw_id`, or why there is
    /// none.
    fn check_claim(&self, caller: AccountId, draw_id: u32) -> (r: Result<Balance, ContractError>)
        requires
            self.wf(),
        ensures
            match r {
                Ok(amount) => {
                    &&& self@.claim_prize_refusal(caller, draw_id) is None
                    &&& amount == self@.draws[draw_id as int].prize_amount
                },
                Err(e) => self@.claim_prize_refusal(caller, draw_id) == Some(e),
            },
    {
        if draw_id >= self.draw_counter {
            return Err(ContractError::InvalidDraw);
        }
        let draw = self.draws[draw_id as usize];
        if draw.executed_at_block == u32::MAX || draw.winner.is_zero() {
            return Err(ContractError::InvalidDraw);
        }
        if draw.winner != caller {
            return Err(ContractError::NotWinner);
        }
        if draw.prize_amount == 0 {
            return Err(ContractError::AlreadyClaimed);
        }
        Ok(draw.prize_amount)
    }

    /// Pays the prize of `draw_id` to `caller` and returns the amount and
    /// the event.
    ///
    /// The claim is refused with `InvalidDraw` where the draw does not exist,
    /// was not executed or has no winner, with `NotWinner` where the caller
    /// did not win it, and with `AlreadyClaimed` where its prize is zero.
    /// Past these, `transferred` tells whether the host's transfer of
    /// [`PrizePool::prize_payout`] went through; if it did not, the claim
    /// fails with `TransferFailed`. A failed call changes nothing.
    pub fn claim_prize(&mut self, caller: AccountId, draw_id: u32, transferred: bool) -> (r: Result<
        (Balance, PrizeClaimed),
        ContractError,
    >)
        requires
            old(self).wf(),
        ensures
            final(self).wf(),
            final(self)@ == old(self)@.after_call(
                PoolCall::ClaimPrize { caller, draw_id, transferred },
            ),
            !old(self)@.claimable_draw(draw_id) ==> r == Err::<(Balance, PrizeClaimed), _>(
                ContractError::InvalidDraw,
            ),
            match r {
                Ok((amount, event)) => {
                    &&& old(self)@.claim_prize_error(caller, draw_id, transferred) is None
                    &&& final(self)@ == old(self)@.after_claim_prize(draw_id)
                    &&& amount == old(self)@.draws[draw_id as int].prize_amount
                    &&& amount > 0
                    &&& event == (PrizeClaimed { winner: caller, draw_id, amount })
                },
                Err(e) => {
                    &&& old(self)@.claim_prize_error(caller, draw_id, transferred) == Some(e)
                    &&& final(self)@ == old(self)@
                },
            },
    {
        let amount = match self.check_claim(caller, draw_id) {
            Ok(amount) => amount,
            Err(e) => return Err(e),
        };
        if !transferred {
            return Err(ContractError::TransferFailed);
        }
        let draw = self.draws[draw_id as usize];
        self.draws[draw_id as usize] = Draw { prize_amount: 0, ..draw };
        proof {
            let before = old(self)@;
            assert(self@.draws == before.draws.update(
                draw_id as int,
                Draw { prize_amount: 0, ..before.draws[draw_id as int] },
            ));
            assert(self@ == before.after_claim_prize(draw_id));
            lemma_claim_prize_keeps_validity(before, draw_id);
        }
        Ok((amount, PrizeClaimed { winner: caller, draw_id, amount }))
    }

    /// The transfer that a withdrawal of the rake by `caller` needs: the
    /// whole rake, to the admin, where the caller is the admin and there is
    /// any; otherwise none.
    pub fn rake_payout(&self, caller: AccountId) -> (r: Option<Transfer>)
        ensures
            r == (if caller == self@.admin && self@.rake_balance != 0 {
                Some(Transfer { to: self@.admin, amount: self@.rake_balance })
            } else {
                None
            }),
    {
        if caller == self.admin && self.rake_balance != 0 {
            Some(Transfer { to: self.admin, amount: self.rake_balance })
        } else {
            None
        }
    }

    /// Pays the whole rake to the admin and returns the amount, with the
    /// event where anything was paid.
    ///
    /// Only the admin may do so. With no rake collected the call returns
    /// zero and no event. Otherwise `transferred` tells whether the host's
    /// transfer of [`PrizePool::rake_payout`] went through; if it did not,
    /// the call fails with `TransferFailed`. A failed call changes nothing.
    pub fn withdraw_rake(&mut self, caller: AccountId, transferred: bool) -> (r: Result<
        (Balance, Option<RakeWithdrawn>),
        ContractError,
    >)
        requires
            old(self).wf(),
        ensures
            final(self).wf(),
            final(self)@ == old(self)@.after_call(PoolCall::WithdrawRake { caller, transferred }),
            match r {
                Ok((amount, event)) => {
                    &&& old(self)@.withdraw_rake_error(caller, transferred) is None
                    &&& final(self)@ == old(self)@.after_withdraw_rake()
                    &&& amount == old(self)@.rake_balance
                    &&& event == (if amount == 0 {
                        None
                    } else {
                        Some(RakeWithdrawn { admin: old(self)@.admin, amount })
                    })
                },
                Err(e) => {
                    &&& old(self)@.withdraw_rake_error(caller, transferred) == Some(e)
                    &&& final(self)@ == old(self)@
                },
            },
    {
        if caller != self.admin {
            return Err(ContractError::Unauthorized);
        }
        let amount = self.rake_balance;
        if amount == 0 {
            return Ok((0, None));
        }
        if !transferred {
            return Err(ContractError::TransferFailed);
        }
        self.rake_balance = 0;
        proof {
            lemma_validity_by_records(old(self)@, self@);
        }
        Ok((amount, Some(RakeWithdrawn { admin: self.admin, amount })))
    }

    /// Sets the pause switch and returns the event of the change. Only the
    /// admin may do so; a refused call changes nothing.
    pub fn set_paused(&mut self, caller: AccountId, paused: bool) -> (r: Result<
        PauseChange,
        ContractError,
    >)
        requires
            old(self).wf(),
        ensures
            final(self).wf(),
            final(self)@ == old(self)@.after_call(PoolCall::SetPaused { caller, paused }),
            match r {
                Ok(event) => {
                    &&& caller == old(self)@.admin
                    &&& final(self)@ == old(self)@.after_set_paused(paused)
                    &&& event == (if paused {
                        PauseChange::Paused(Paused { by: caller })
                    } else {
                        PauseChange::Unpaused(Unpaused { by: caller })
                    })
                },
                Err(e) => {
                    &&& old(self)@.admin_error(caller) == Some(e)
                    &&& final(self)@ == old(self)@
                },
            },
    {
        if caller != self.admin {
            return Err(ContractError::Unauthorized);
        }
        self.is_paused = paused;
        proof {
            lemma_validity_by_records(old(self)@, self@);
        }
        if paused {
            Ok(PauseChange::Paused(Paused { by: self.admin }))
        } else {
            Ok(PauseChange::Unpaused(Unpaused { by: self.admin }))
        }
    }

    /// Sets the rake, in basis points. Only the admin may do so, and the
    /// rake may not exceed the whole; a refused call changes nothing.
    pub fn set_rake_bps(&mut self, caller: AccountId, rake_bps: u16) -> (r: Result<
        (),
        ContractError,
    >)
        requires
            old(self).wf(),
        ensures
            final(self).wf(),
            final(self)@ == old(self)@.after_call(PoolCall::SetRakeBps { caller, rake_bps }),
            match r {
                Ok(_) => {
                    &&& old(self)@.set_rake_bps_error(caller, rake_bps) is None
                    &&& final(self)@ == old(self)@.after_set_rake_bps(rake_bps)
                },
                Err(e) => {
                    &&& old(self)@.set_rake_bps_error(caller, rake_bps) == Some(e)
                    &&& final(self)@ == old(self)@
                },
            },
    {
        if caller != self.admin {
            return Err(ContractError::Unauthorized);
        }
        if rake_bps > BASIS_POINTS_DENOMINATOR {
            return Err(ContractError::InvalidEntryFee);
        }
        self.rake_bps = rake_bps;
        proof {
            lemma_validity_by_records(old(self)@, self@);
        }
        Ok(())
    }

    /// The balances, the size and id of the open draw, and the pause switch.
    pub fn get_pool_info(&self) -> (info: PoolInfo)
        requires
            self.wf(),
        ensures
            info == self@.pool_info(),
    {
        PoolInfo {
            pool_balance: self.pool_balance,
            rake_balance: self.rake_balance,
            entry_count: self.entrants.len() as u32,
            draw_id: self.draw_counter,
            is_paused: self.is_paused,
        }
    }

    /// The entry with the given id, if there is one.
    pub fn get_entry(&self, entry_id: u32) -> (r: Option<Entry>)
        requires
            self.wf(),
        ensures
            r == (if entry_id < self@.entries.len() {
                Some(self@.entries[entry_id as int])
            } else {
                None
            }),
    {
        if entry_id < self.entry_counter {
            Some(self.entries[entry_id as usize])
        } else {
            None
        }
    }

    /// The executed draw with the given id, if there is one.
    pub fn get_draw(&self, draw_id: u32) -> (r: Option<Draw>)
        requires
            self.wf(),
        ensures
            r == (if draw_id < self@.draws.len() {
                Some(self@.draws[draw_id as int])
            } else {
                None
            }),
    {
        if draw_id < self.draw_counter {
            Some(self.draws[draw_id as usize])
        } else {
            None
        }
    }
}

/// The winner of a draw with `entry_count` entrants is one of them: the
/// position picked lies in `[0, entry_count)`, whatever the block, the
/// timestamp and the draw.
pub proof fn law_winner_index_in_range(
    block_number: BlockNumber,
    block_timestamp: Timestamp,
    draw_id: u32,
    entry_count: int,
)
    requires
        entry_count > 0,
    ensures
        0 <= winner_index(block_number, block_timestamp, draw_id, entry_count) < entry_count,
{
}

/// The rake never exceeds the fee while the rake is at most the whole, and
/// rake and prize contribution add up to the fee.
pub proof fn law_rake_within_fee(entry_fee: Balance, rake_bps: u16)
    requires
        rake_bps <= BASIS_POINTS_DENOMINATOR,
    ensures
        0 <= rake_of(entry_fee, rake_bps) <= entry_fee,
        rake_of(entry_fee, rake_bps) + (entry_fee - rake_of(entry_fee, rake_bps)) == entry_fee,
{
    assert(entry_fee * rake_bps <= entry_fee * 10000) by (nonlinear_arith)
        requires
            rake_bps <= 10000,
            entry_fee >= 0,
    ;
    assert(entry_fee * rake_bps >= 0) by (nonlinear_arith)
        requires
            rake_bps >= 0,
            entry_fee >= 0,
    ;
}

/// An accepted entry moves the whole fee into the pool: what the prize pool
/// and the rake gain together is the fee, and the open draw grows by one
/// entrant, the caller.
pub proof fn law_entry_conserves_fee(
    pool: PrizePoolView,
    caller: AccountId,
    entry_fee: Balance,
    block_number: BlockNumber,
)
    requires
        pool.valid(),
        pool.enter_jackpot_error(caller, entry_fee) is None,
    ensures
        ({
            let after = pool.after_enter_jackpot(caller, entry_fee, block_number);
            &&& after.valid()
            &&& (after.pool_balance - pool.pool_balance) + (after.rake_balance - pool.rake_balance)
                == entry_fee
            &&& after.rake_balance - pool.rake_balance == rake_of(entry_fee, pool.rake_bps)
            &&& after.entrants.len() == pool.entrants.len() + 1
            &&& after.entrants.last() == caller
            &&& after.entries.last().entry_fee == entry_fee
        }),
{
    let after = pool.after_enter_jackpot(caller, entry_fee, block_number);
    assert(entry_fee * pool.rake_bps >= 0) by (nonlinear_arith)
        requires
            pool.rake_bps >= 0,
            entry_fee >= 0,
    ;
    assert forall|k: int| 0 <= k < after.entrants.len() implies ({
        &&& (#[trigger] after.open_entry(k)).player == after.entrants[k]
        &&& after.open_entry(k).draw_id == after.draws.len()
    }) by {
        if k < pool.entrants.len() {
            assert(after.open_entry(k) == pool.open_entry(k));
        }
    }
}

/// Once a prize has been paid out, no further claim on that draw succeeds:
/// the winner is told `AlreadyClaimed`, anyone else `NotWinner`, whatever
/// the host reports of a transfer.
pub proof fn law_prize_is_claimed_once(
    pool: PrizePoolView,
    winner: AccountId,
    draw_id: u32,
    claimant: AccountId,
    transferred: bool,
)
    requires
        pool.valid(),
        pool.claim_prize_error(winner, draw_id, true) is None,
    ensures
        ({
            let after = pool.after_claim_prize(draw_id);
            &&& after.valid()
            &&& after.claim_prize_error(winner, draw_id, transferred) == Some(
                ContractError::AlreadyClaimed,
            )
            &&& claimant != winner ==> after.claim_prize_error(claimant, draw_id, transferred)
                == Some(ContractError::NotWinner)
            &&& after.claim_prize_error(claimant, draw_id, transferred) is Some
        }),
{
    lemma_claim_prize_keeps_validity(pool, draw_id);
}

/// A paused pool refuses every entry with `Paused`, whoever calls and
/// whatever the fee.
pub proof fn law_paused_pool_refuses_entries(
    pool: PrizePoolView,
    caller: AccountId,
    entry_fee: Balance,
)
    requires
        pool.is_paused,
    ensures
        pool.enter_jackpot_error(caller, entry_fee) == Some(ContractError::Paused),
{
}

/// Whether `call` is the admin switching the pause off.
pub open spec fn is_unpause(pool: PrizePoolView, call: PoolCall) -> bool {
    call matches PoolCall::SetPaused { caller, paused } && caller == pool.admin && !paused
}

/// No call changes the admin, the configured oracle or the limits of the
/// pool.
pub proof fn lemma_calls_keep_configuration(pool: PrizePoolView, calls: Seq<PoolCall>)
    ensures
        pool.after_calls(calls).admin == pool.admin,
        pool.after_calls(calls).rng_address == pool.rng_address,
        pool.after_calls(calls).max_entries_per_draw == pool.max_entries_per_draw,
        pool.after_calls(calls).max_entry_fee == pool.max_entry_fee,
    decreases calls.len(),
{
    if calls.len() > 0 {
        lemma_calls_keep_configuration(pool, calls.drop_last());
    }
}

/// Validity speaks only of the entries, the draws, the entrants and their
/// limit: a pool that agrees with a valid pool on these is valid.
proof fn lemma_validity_by_records(pool: PrizePoolView, other: PrizePoolView)
    requires
        pool.valid(),
        other.entries == pool.entries,
        other.draws == pool.draws,
        other.entrants == pool.entrants,
        other.max_entries_per_draw == pool.max_entries_per_draw,
    ensures
        other.valid(),
{
    assert forall|k: int| 0 <= k < other.entrants.len() implies ({
        &&& (#[trigger] other.open_entry(k)).player == other.entrants[k]
        &&& other.open_entry(k).draw_id == other.draws.len()
    }) by {
        assert(other.open_entry(k) == pool.open_entry(k));
    }
}

/// Executing the open draw leaves a valid pool valid.
proof fn lemma_execute_draw_keeps_validity(
    pool: PrizePoolView,
    caller: AccountId,
    block_number: BlockNumber,
    block_timestamp: Timestamp,
)
    requires
        pool.valid(),
        pool.execute_draw_error(caller) is None,
    ensures
        pool.after_execute_draw(block_number, block_timestamp).valid(),
{
    let after = pool.after_execute_draw(block_number, block_timestamp);
    let draw = pool.drawn(block_number, block_timestamp);
    assert forall|d: int| 0 <= d < after.draws.len() implies ({
        &&& (#[trigger] after.draws[d]).draw_id == d
        &&& after.draws[d].entry_count >= 1
    }) by {
        if d < pool.draws.len() {
            assert(after.draws[d] == pool.draws[d]);
        } else {
            assert(after.draws[d] == draw);
        }
    }
}

/// Paying out a prize leaves a valid pool valid.
proof fn lemma_claim_prize_keeps_validity(pool: PrizePoolView, draw_id: u32)
    requires
        pool.valid(),
        draw_id < pool.draws.len(),
    ensures
        pool.after_claim_prize(draw_id).valid(),
{
    let after = pool.after_claim_prize(draw_id);
    assert forall|d: int| 0 <= d < after.draws.len() implies ({
        &&& (#[trigger] after.draws[d]).draw_id == d
        &&& after.draws[d].entry_count >= 1
    }) by {
        assert(pool.draws[d].draw_id == d);
    }
    assert forall|k: int| 0 <= k < after.entrants.len() implies ({
        &&& (#[trigger] after.open_entry(k)).player == after.entrants[k]
        &&& after.open_entry(k).draw_id == after.draws.len()
    }) by {
        assert(after.open_entry(k) == pool.open_entry(k));
    }
}

/// Every call, failed or not, leaves a valid pool valid.
pub proof fn law_call_keeps_validity(pool: PrizePoolView, call: PoolCall)
    requires
        pool.valid(),
    ensures
        pool.after_call(call).valid(),
{
    if pool.call_error(call) is None {
        match call {
            PoolCall::EnterJackpot { caller, entry_fee, block_number } => {
                law_entry_conserves_fee(pool, caller, entry_fee, block_number);
            },
            PoolCall::ExecuteDraw { caller, block_number, block_timestamp } => {
                lemma_execute_draw_keeps_validity(pool, caller, block_number, block_timestamp);
            },
            PoolCall::ClaimPrize { caller, draw_id, transferred } => {
                lemma_claim_prize_keeps_validity(pool, draw_id);
            },
            PoolCall::WithdrawRake { caller, transferred } => {
                lemma_validity_by_records(pool, pool.after_withdraw_rake());
            },
            PoolCall::SetPaused { caller, paused } => {
                lemma_validity_by_records(pool, pool.after_set_paused(paused));
            },
            PoolCall::SetRakeBps { caller, rake_bps } => {
                lemma_validity_by_records(pool, pool.after_set_rake_bps(rake_bps));
            },
        }
    }
}

/// Every sequence of calls leaves a valid pool valid.
pub proof fn law_calls_keep_validity(pool: PrizePoolView, calls: Seq<PoolCall>)
    requires
        pool.valid(),
    ensures
        pool.after_calls(calls).valid(),
    decreases calls.len(),
{
    if calls.len() > 0 {
        law_calls_keep_validity(pool, calls.drop_last());
        law_call_keeps_validity(pool.after_calls(calls.drop_last()), calls.last());
    }
}

/// A paused pool stays paused until the admin unpauses it: after any
/// sequence of calls in which the admin does not switch the pause off, the
/// pool is still paused.
pub proof fn law_pause_lasts_until_unpaused(pool: PrizePoolView, calls: Seq<PoolCall>)
    requires
        pool.is_paused,
        forall|i: int| 0 <= i < calls.len() ==> !is_unpause(pool, #[trigger] calls[i]),
    ensures
        pool.after_calls(calls).is_paused,
    decreases calls.len(),
{
    if calls.len() > 0 {
        let earlier = calls.drop_last();
        assert forall|i: int| 0 <= i < earlier.len() implies !is_unpause(
            pool,
            #[trigger] earlier[i],
        ) by {
            assert(earlier[i] == calls[i]);
        }
        law_pause_lasts_until_unpaused(pool, earlier);
        lemma_calls_keep_configuration(pool, earlier);
        assert(!is_unpause(pool, calls[calls.len() - 1]));
    }
}

/// Once the admin has paused the pool, every entry is refused with `Paused`
/// until the admin unpauses it, whoever enters, whatever the fee, and
/// whatever other calls are made in between.
pub proof fn law_pause_refuses_every_entry(
    pool: PrizePoolView,
    calls: Seq<PoolCall>,
    caller: AccountId,
    entry_fee: Balance,
)
    requires
        forall|i: int| 0 <= i < calls.len() ==> !is_unpause(pool, #[trigger] calls[i]),
    ensures
        pool.after_set_paused(true).after_calls(calls).enter_jackpot_error(caller, entry_fee)
            == Some(ContractError::Paused),
{
    let paused = pool.after_set_paused(true);
    assert forall|i: int| 0 <= i < calls.len() implies !is_unpause(paused, #[trigger] calls[i]) by {
        assert(!is_unpause(pool, calls[i]));
    }
    law_pause_lasts_until_unpaused(paused, calls);
}

/// No call removes an executed draw or changes anything of it but its
/// prize, which a claim sets to zero.
pub proof fn law_call_keeps_draws(pool: PrizePoolView, call: PoolCall, draw_id: u32)
    requires
        pool.valid(),
        draw_id < pool.draws.len(),
    ensures
        draw_id < pool.after_call(call).draws.len(),
        pool.after_call(call).draws[draw_id as int] == pool.draws[draw_id as int]
            || pool.after_call(call).draws[draw_id as int] == (Draw {
            prize_amount: 0,
            ..pool.draws[draw_id as int]
        }),
{
}

/// A claimed prize stays claimed: once the prize of a draw is zero, the
/// draw stays as it is whatever calls follow, and every further claim on it
/// fails, with `AlreadyClaimed` where the winner calls.
pub proof fn law_claimed_prize_stays_claimed(
    pool: PrizePoolView,
    draw_id: u32,
    calls: Seq<PoolCall>,
    claimant: AccountId,
    transferred: bool,
)
    requires
        pool.valid(),
        draw_id < pool.draws.len(),
        pool.draws[draw_id as int].prize_amount == 0,
    ensures
        ({
            let later = pool.after_calls(calls);
            let draw = pool.draws[draw_id as int];
            &&& draw_id < later.draws.len()
            &&& later.draws[draw_id as int] == draw
            &&& later.claim_prize_error(claimant, draw_id, transferred) is Some
            &&& later.claimable_draw(draw_id) && claimant == draw.winner
                ==> later.claim_prize_error(claimant, draw_id, transferred) == Some(
                ContractError::AlreadyClaimed,
            )
        }),
    decreases calls.len(),
{
    if calls.len() > 0 {
        law_claimed_prize_stays_claimed(pool, draw_id, calls.drop_last(), claimant, transferred);
        law_calls_keep_validity(pool, calls.drop_last());
        law_call_keeps_draws(pool.after_calls(calls.drop_last()), calls.last(), draw_id);
    }
}

/// Recording one more draw adds its prize to what is escrowed.
proof fn lemma_escrowed_push(draws: Seq<Draw>, draw: Draw)
    ensures
        escrowed(draws.push(draw)) == escrowed(draws) + draw.prize_amount,
{
    assert(draws.push(draw).drop_last() =~= draws);
}

/// Replacing one draw changes what is escrowed by the difference of the
/// two prizes.
proof fn lemma_escrowed_update(draws: Seq<Draw>, i: int, draw: Draw)
    requires
        0 <= i < draws.len(),
    ensures
        escrowed(draws.update(i, draw)) == escrowed(draws) - draws[i].prize_amount
            + draw.prize_amount,
    decreases draws.len(),
{
    let updated = draws.update(i, draw);
    if i == draws.len() - 1 {
        assert(updated.drop_last() =~= draws.drop_last());
    } else {
        lemma_escrowed_update(draws.drop_last(), i, draw);
        assert(updated.drop_last() =~= draws.drop_last().update(i, draw));
    }
}

/// No call makes money or loses it: what the pool answers for changes by
/// exactly what a successful call pays in less what it pays out, and not at
/// all where the call fails. Executing a draw moves the prize from the open
/// draw into escrow and changes nothing of the sum.
pub proof fn law_call_conserves_money(pool: PrizePoolView, call: PoolCall)
    requires
        pool.valid(),
    ensures
        pool.call_error(call) is Some ==> pool.after_call(call).holdings() == pool.holdings(),
        pool.call_error(call) is None ==> pool.after_call(call).holdings() == pool.holdings()
            + pool.paid_in(call) - pool.paid_out(call),
{
    if pool.call_error(call) is None {
        match call {
            PoolCall::EnterJackpot { caller, entry_fee, block_number } => {
                law_entry_conserves_fee(pool, caller, entry_fee, block_number);
            },
            PoolCall::ExecuteDraw { caller, block_number, block_timestamp } => {
                lemma_escrowed_push(pool.draws, pool.drawn(block_number, block_timestamp));
            },
            PoolCall::ClaimPrize { caller, draw_id, transferred } => {
                lemma_escrowed_update(
                    pool.draws,
                    draw_id as int,
                    Draw { prize_amount: 0, ..pool.draws[draw_id as int] },
                );
            },
            PoolCall::WithdrawRake { caller, transferred } => {},
            PoolCall::SetPaused { caller, paused } => {},
            PoolCall::SetRakeBps { caller, rake_bps } => {},
        }
    }
}

/// Over any sequence of calls, what the pool answers for changes by exactly
/// what was paid in less what was paid out.
pub proof fn law_calls_conserve_money(pool: PrizePoolView, calls: Seq<PoolCall>)
    requires
        pool.valid(),
    ensures
        pool.after_calls(calls).holdings() == pool.holdings() + pool.net_flow(calls),
    decreases calls.len(),
{
    if calls.len() > 0 {
        law_calls_conserve_money(pool, calls.drop_last());
        law_calls_keep_validity(pool, calls.drop_last());
        law_call_conserves_money(pool.after_calls(calls.drop_last()), calls.last());
    }
}

} // verus!
