//! The commit-reveal oracle: a party commits to the hash of a secret and,
//! once the reveal block has come, discloses the secret. The oracle checks
//! it against the commitment and derives a number from it and from the block
//! in which it was revealed.
//!
//! The hash is a plain XOR fold. It binds a commitment to its secret only
//! loosely and is kept as it is on purpose.

use crate::account::{same_bytes, AccountId, BlockNumber, Timestamp};
use vstd::prelude::*;

verus! {

/// One commitment. Created by `commit`, changed once by `reveal_secret`.
///
/// `random_number` is zero until the commitment is revealed and never zero
/// afterwards.
#[derive(Debug, Clone, Copy, PartialEq, Eq)]
pub struct Commitment {
    pub committer: AccountId,
    pub commit_hash: [u8; 32],
    pub reveal_block: BlockNumber,
    pub committed_at_block: BlockNumber,
    pub revealed: bool,
    pub random_number: u64,
}

/// Why a call on the oracle failed.
#[derive(Debug, Clone, Copy, PartialEq, Eq, Structural)]
pub enum ContractError {
    InvalidCommitment,
    RevealTooEarly,
    AlreadyRevealed,
    InvalidSecret,
    CommitmentNotFound,
}

/// Published when a commitment is made.
#[derive(Debug, Clone, Copy, PartialEq, Eq)]
pub struct Committed {
    pub committer: AccountId,
    pub commitment_id: u32,
    pub commit_hash: [u8; 32],
    pub reveal_block: BlockNumber,
    pub committed_at_block: BlockNumber,
}

/// Published when a commitment is revealed.
#[derive(Debug, Clone, Copy, PartialEq, Eq)]
pub struct Revealed {
    pub committer: AccountId,
    pub commitment_id: u32,
    pub random_number: u64,
    pub revealed_at_block: BlockNumber,
}

/// The XOR of those bytes of `input` whose position is `lane` modulo
/// `width`.
pub open spec fn xor_fold(input: Seq<u8>, width: int, lane: int) -> u8
    decreases input.len(),
{
    if input.len() == 0 {
        0
    } else if (input.len() - 1) % width == lane {
        xor_fold(input.drop_last(), width, lane) ^ input.last()
    } else {
        xor_fold(input.drop_last(), width, lane)
    }
}

/// The hash of a secret: thirty-two bytes, the byte at each position being
/// the XOR of the secret's bytes at that position modulo thirty-two.
pub open spec fn hash_of(input: Seq<u8>) -> Seq<u8> {
    Seq::new(32, |lane: int| xor_fold(input, 32, lane))
}

/// The byte of weight `256^k` in the little-endian form of `value`, for `k`
/// below eight.
pub open spec fn le_byte(value: int, k: int) -> u8 {
    if k == 0 {
        (value % 0x100) as u8
    } else if k == 1 {
        (value / 0x100 % 0x100) as u8
    } else if k == 2 {
        (value / 0x1_0000 % 0x100) as u8
    } else if k == 3 {
        (value / 0x100_0000 % 0x100) as u8
    } else if k == 4 {
        (value / 0x1_0000_0000 % 0x100) as u8
    } else if k == 5 {
        (value / 0x100_0000_0000 % 0x100) as u8
    } else if k == 6 {
        (value / 0x1_0000_0000_0000 % 0x100) as u8
    } else {
        (value / 0x100_0000_0000_0000 % 0x100) as u8
    }
}

/// The number whose little-endian form is the first eight bytes of `bytes`.
pub open spec fn le_value(bytes: Seq<u8>) -> int {
    bytes[0] + bytes[1] * 0x100 + bytes[2] * 0x1_0000 + bytes[3] * 0x100_0000 + bytes[4]
        * 0x1_0000_0000 + bytes[5] * 0x100_0000_0000 + bytes[6] * 0x1_0000_0000_0000 + bytes[7]
        * 0x100_0000_0000_0000
}

/// The sixty-four bytes that a reveal mixes: up to thirty-two bytes of the
/// secret from position 0, the block height in little-endian form from
/// position 32, the timestamp in little-endian form from position 36, and
/// zero everywhere else.
pub open spec fn mix_buffer(
    secret: Seq<u8>,
    block_number: BlockNumber,
    block_timestamp: Timestamp,
) -> Seq<u8> {
    Seq::new(
        64,
        |i: int|
            if i < 32 {
                if i < secret.len() {
                    secret[i]
                } else {
                    0u8
                }
            } else if i < 36 {
                le_byte(block_number as int, i - 32)
            } else if i < 44 {
                le_byte(block_timestamp as int, i - 36)
            } else {
                0u8
            },
    )
}

/// A byte times seventeen, modulo 256.
pub open spec fn times_17(byte: u8) -> u8 {
    ((byte as nat * 17u8 as nat) % 0x100 as nat) as u8
}

/// The byte of weight `256^lane` of the derived number: the XOR fold of the
/// mix buffer at that lane of eight, and for the four lowest lanes also the
/// matching byte of the block height times seventeen.
pub open spec fn mixed_byte(
    secret: Seq<u8>,
    block_number: BlockNumber,
    block_timestamp: Timestamp,
    lane: int,
) -> u8 {
    let folded = xor_fold(mix_buffer(secret, block_number, block_timestamp), 8, lane);
    if lane < 4 {
        folded ^ times_17(le_byte(block_number as int, lane))
    } else {
        folded
    }
}

/// The number derived from a secret and the block it is revealed in, before
/// zero is ruled out.
pub open spec fn mixed_number(
    secret: Seq<u8>,
    block_number: BlockNumber,
    block_timestamp: Timestamp,
) -> int {
    le_value(Seq::new(8, |lane: int| mixed_byte(secret, block_number, block_timestamp, lane)))
}

/// The number a reveal returns: the derived number, or one where that is
/// zero, which is kept to mean "not revealed".
pub open spec fn revealed_number(
    secret: Seq<u8>,
    block_number: BlockNumber,
    block_timestamp: Timestamp,
) -> int {
    if mixed_number(secret, block_number, block_timestamp) == 0 {
        1
    } else {
        mixed_number(secret, block_number, block_timestamp)
    }
}

/// One call on the oracle, with everything the host supplies to it.
pub enum OracleCall {
    Commit {
        caller: AccountId,
        current_block: BlockNumber,
        commit_hash: [u8; 32],
        reveal_block: BlockNumber,
    },
    Reveal {
        caller: AccountId,
        current_block: BlockNumber,
        block_timestamp: Timestamp,
        commitment_id: u32,
        secret: Seq<u8>,
    },
}

/// What an oracle is, apart from how it is stored.
pub struct RNGView {
    /// Every commitment ever made; a commitment's id is its position.
    pub commitments: Seq<Commitment>,
    /// The least number of blocks between a commitment and its reveal.
    pub min_reveal_blocks: u32,
}

impl RNGView {
    /// What holds of every oracle: ids fit their counter, a commitment has a
    /// number exactly when it is revealed, and no reveal block comes sooner
    /// than the minimum delay after the commitment.
    pub open spec fn valid(self) -> bool {
        &&& self.commitments.len() <= u32::MAX
        &&& forall|id: int|
            0 <= id < self.commitments.len() ==> {
                let c = #[trigger] self.commitments[id];
                &&& c.revealed == (c.random_number != 0)
                &&& c.reveal_block >= c.committed_at_block + self.min_reveal_blocks
            }
    }

    /// The error with which a commitment is refused, if it is.
    pub open spec fn commit_error(
        self,
        current_block: BlockNumber,
        reveal_block: BlockNumber,
    ) -> Option<ContractError> {
        if reveal_block < current_block + self.min_reveal_blocks || self.commitments.len()
            >= u32::MAX {
            Some(ContractError::InvalidCommitment)
        } else {
            None
        }
    }

    /// The oracle after a new commitment.
    pub open spec fn after_commit(
        self,
        caller: AccountId,
        current_block: BlockNumber,
        commit_hash: [u8; 32],
        reveal_block: BlockNumber,
    ) -> RNGView {
        RNGView {
            commitments: self.commitments.push(
                Commitment {
                    committer: caller,
                    commit_hash,
                    reveal_block,
                    committed_at_block: current_block,
                    revealed: false,
                    random_number: 0,
                },
            ),
            ..self
        }
    }

    /// The error with which a reveal is refused, if it is.
    pub open spec fn reveal_error(
        self,
        caller: AccountId,
        current_block: BlockNumber,
        commitment_id: u32,
        secret: Seq<u8>,
    ) -> Option<ContractError> {
        if commitment_id >= self.commitments.len() {
            Some(ContractError::CommitmentNotFound)
        } else {
            let c = self.commitments[commitment_id as int];
            if c.committer != caller {
                Some(ContractError::InvalidSecret)
            } else if c.revealed {
                Some(ContractError::AlreadyRevealed)
            } else if current_block < c.reveal_block {
                Some(ContractError::RevealTooEarly)
            } else if hash_of(secret) != c.commit_hash@ {
                Some(ContractError::InvalidSecret)
            } else {
                None
            }
        }
    }

    /// The oracle after the commitment has been revealed with `number`.
    pub open spec fn after_reveal(self, commitment_id: u32, number: u64) -> RNGView {
        RNGView {
            commitments: self.commitments.update(
                commitment_id as int,
                Commitment {
                    revealed: true,
                    random_number: number,
                    ..self.commitments[commitment_id as int]
                },
            ),
            ..self
        }
    }

    /// The error with which `call` fails on this oracle, if it does.
    pub open spec fn call_error(self, call: OracleCall) -> Option<ContractError> {
        match call {
            OracleCall::Commit { current_block, reveal_block, .. } => self.commit_error(
                current_block,
                reveal_block,
            ),
            OracleCall::Reveal {
                caller,
                current_block,
                commitment_id,
                secret,
                ..
            } => self.reveal_error(caller, current_block, commitment_id, secret),
        }
    }

    /// The oracle after `call`: as it was where the call fails, and as the
    /// operation leaves it where it succeeds.
    pub open spec fn after_call(self, call: OracleCall) -> RNGView {
        if self.call_error(call) is Some {
            self
        } else {
            match call {
                OracleCall::Commit {
                    caller,
                    current_block,
                    commit_hash,
                    reveal_block,
                } => self.after_commit(caller, current_block, commit_hash, reveal_block),
                OracleCall::Reveal {
                    current_block,
                    block_timestamp,
                    commitment_id,
                    secret,
                    ..
                } => self.after_reveal(
                    commitment_id,
                    revealed_number(secret, current_block, block_timestamp) as u64,
                ),
            }
        }
    }

    /// The oracle after a sequence of calls, made one after the other.
    pub open spec fn after_calls(self, calls: Seq<OracleCall>) -> RNGView
        decreases calls.len(),
    {
        if calls.len() == 0 {
            self
        } else {
            self.after_calls(calls.drop_last()).after_call(calls.last())
        }
    }

    /// The number of a commitment, where it is revealed.
    pub open spec fn random_number(self, commitment_id: u32) -> Option<u64> {
        if commitment_id < self.commitments.len() && self.commitments[commitment_id as int].revealed
            && self.commitments[commitment_id as int].random_number != 0 {
            Some(self.commitments[commitment_id as int].random_number)
        } else {
            None
        }
    }
}

/// The four bytes of a block height, lowest first.
fn block_number_bytes(block_number: BlockNumber) -> (bytes: [u8; 4])
    ensures
        forall|k: int| 0 <= k < 4 ==> bytes[k] == le_byte(block_number as int, k),
{
    [
        (block_number % 0x100) as u8,
        (block_number / 0x100 % 0x100) as u8,
        (block_number / 0x1_0000 % 0x100) as u8,
        (block_number / 0x100_0000 % 0x100) as u8,
    ]
}

/// The eight bytes of a timestamp, lowest first.
fn timestamp_bytes(block_timestamp: Timestamp) -> (bytes: [u8; 8])
    ensures
        forall|k: int| 0 <= k < 8 ==> bytes[k] == le_byte(block_timestamp as int, k),
{
    [
        (block_timestamp % 0x100) as u8,
        (block_timestamp / 0x100 % 0x100) as u8,
        (block_timestamp / 0x1_0000 % 0x100) as u8,
        (block_timestamp / 0x100_0000 % 0x100) as u8,
        (block_timestamp / 0x1_0000_0000 % 0x100) as u8,
        (block_timestamp / 0x100_0000_0000 % 0x100) as u8,
        (block_timestamp / 0x1_0000_0000_0000 % 0x100) as u8,
        (block_timestamp / 0x100_0000_0000_0000 % 0x100) as u8,
    ]
}

/// The number whose little-endian form is `bytes`.
fn number_from_bytes(bytes: &[u8; 8]) -> (value: u64)
    ensures
        value == le_value(bytes@),
{
    let mut value: u64 = bytes[7] as u64;
    value = value * 0x100 + bytes[6] as u64;
    value = value * 0x100 + bytes[5] as u64;
    value = value * 0x100 + bytes[4] as u64;
    value = value * 0x100 + bytes[3] as u64;
    value = value * 0x100 + bytes[2] as u64;
    value = value * 0x100 + bytes[1] as u64;
    value = value * 0x100 + bytes[0] as u64;
    value
}

/// Folding one more byte extends the fold of what came before.
proof fn lemma_xor_fold_step(input: Seq<u8>, n: int, width: int, lane: int)
    requires
        0 <= n < input.len(),
    ensures
        xor_fold(input.take(n + 1), width, lane) == (if n % width == lane {
            xor_fold(input.take(n), width, lane) ^ input[n]
        } else {
            xor_fold(input.take(n), width, lane)
        }),
{
    assert(input.take(n + 1).drop_last() =~= input.take(n));
}

/// Everything an oracle holds, as plain data: what a host keeps between one
/// call and the next.
pub struct RNGState {
    pub commitments: Vec<Commitment>,
    pub min_reveal_blocks: u32,
}

impl View for RNGState {
    type V = RNGView;

    open spec fn view(&self) -> RNGView {
        RNGView { commitments: self.commitments@, min_reveal_blocks: self.min_reveal_blocks }
    }
}

/// The commit-reveal oracle.
pub struct RNG {
    commitments: Vec<Commitment>,
    commitment_counter: u32,
    min_reveal_blocks: u32,
}

impl View for RNG {
    type V = RNGView;

    closed spec fn view(&self) -> RNGView {
        RNGView { commitments: self.commitments@, min_reveal_blocks: self.min_reveal_blocks }
    }
}

impl RNG {
    /// The counter agrees with what is stored, and the view is valid.
    pub closed spec fn wf(&self) -> bool {
        &&& self.commitments.len() == self.commitment_counter
        &&& self@.valid()
    }

    /// A well-formed oracle has a valid view.
    pub proof fn lemma_wf_valid(&self)
        requires
            self.wf(),
        ensures
            self@.valid(),
    {
    }

    /// An oracle without commitments.
    pub fn new(min_reveal_blocks: u32) -> (oracle: RNG)
        ensures
            oracle.wf(),
            oracle@ == (RNGView { commitments: Seq::empty(), min_reveal_blocks }),
    {
        RNG { commitments: Vec::new(), commitment_counter: 0, min_reveal_blocks }
    }

    /// The oracle as plain data.
    pub fn into_state(self) -> (state: RNGState)
        requires
            self.wf(),
        ensures
            state@ == self@,
            state@.valid(),
    {
        RNGState { commitments: self.commitments, min_reveal_blocks: self.min_reveal_blocks }
    }

    /// The oracle that the plain data stands for, unless the data is not
    /// valid.
    pub fn from_state(state: RNGState) -> (r: Option<RNG>)
        ensures
            r is Some <==> state@.valid(),
            r matches Some(oracle) ==> oracle.wf() && oracle@ == state@,
    {
        let count = state.commitments.len();
        if count > u32::MAX as usize {
            return None;
        }
        let mut i: usize = 0;
        while i < count
            invariant
                i <= count == state.commitments.len(),
                forall|id: int|
                    0 <= id < i ==> {
                        let c = #[trigger] state.commitments[id];
                        &&& c.revealed == (c.random_number != 0)
                        &&& c.reveal_block >= c.committed_at_block + state.min_reveal_blocks
                    },
            decreases count - i,
        {
            let c = state.commitments[i];
            let has_number = c.random_number != 0;
            if c.revealed != has_number || (c.reveal_block as u64) < c.committed_at_block as u64
                + state.min_reveal_blocks as u64 {
                return None;
            }
            i += 1;
        }
        Some(
            RNG {
                commitments: state.commitments,
                commitment_counter: count as u32,
                min_reveal_blocks: state.min_reveal_blocks,
            },
        )
    }

    /// Records a commitment of `caller` to `commit_hash`, to be revealed at
    /// `reveal_block` or later, and returns its id and the event.
    ///
    /// The call fails with `InvalidCommitment` where `reveal_block` is less
    /// than `current_block + min_reveal_blocks`, or where no id is left. A
    /// failed call changes nothing.
    pub fn commit(
        &mut self,
        caller: AccountId,
        current_block: BlockNumber,
        commit_hash: [u8; 32],
        reveal_block: BlockNumber,
    ) -> (r: Result<(u32, Committed), ContractError>)
        requires
            old(self).wf(),
        ensures
            final(self).wf(),
            final(self)@ == old(self)@.after_call(
                OracleCall::Commit { caller, current_block, commit_hash, reveal_block },
            ),
            reveal_block < current_block + old(self)@.min_reveal_blocks ==> r == Err::<
                (u32, Committed),
                _,
            >(ContractError::InvalidCommitment),
            match r {
                Ok((commitment_id, event)) => {
                    &&& old(self)@.commit_error(current_block, reveal_block) is None
                    &&& final(self)@ == old(self)@.after_commit(
                        caller,
                        current_block,
                        commit_hash,
                        reveal_block,
                    )
                    &&& commitment_id == old(self)@.commitments.len()
                    &&& event == (Committed {
                        committer: caller,
                        commitment_id,
                        commit_hash,
                        reveal_block,
                        committed_at_block: current_block,
                    })
                },
                Err(e) => {
                    &&& old(self)@.commit_error(current_block, reveal_block) == Some(e)
                    &&& final(self)@ == old(self)@
                },
            },
    {
        if (reveal_block as u64) < current_block as u64 + self.min_reveal_blocks as u64 {
            return Err(ContractError::InvalidCommitment);
        }
        let commitment_id = self.commitment_counter;
        let commitment_counter = match commitment_id.checked_add(1) {
            Some(c) => c,
            None => return Err(ContractError::InvalidCommitment),
        };
        let commitment = Commitment {
            committer: caller,
            commit_hash,
            reveal_block,
            committed_at_block: current_block,
            revealed: false,
            random_number: 0,
        };
        self.commitments.push(commitment);
        self.commitment_counter = commitment_counter;
        assert(self@ == old(self)@.after_commit(caller, current_block, commit_hash, reveal_block));
        Ok(
            (
                commitment_id,
                Committed {
                    committer: caller,
                    commitment_id,
                    commit_hash,
                    reveal_block,
                    committed_at_block: current_block,
                },
            ),
        )
    }

    /// Reveals the commitment with `secret` at `current_block` and returns
    /// the derived number and the event.
    ///
    /// The call fails with `CommitmentNotFound` where the id is unknown,
    /// with `InvalidSecret` where the caller is not the committer, with
    /// `AlreadyRevealed` where the commitment is revealed, with
    /// `RevealTooEarly` before the reveal block, and with `InvalidSecret`
    /// where the secret's hash is not the one committed to. The number is
    /// `revealed_number(..)` and never zero. A failed call changes nothing.
    pub fn reveal_secret(
        &mut self,
        caller: AccountId,
        current_block: BlockNumber,
        block_timestamp: Timestamp,
        commitment_id: u32,
        secret: Vec<u8>,
    ) -> (r: Result<(u64, Revealed), ContractError>)
        requires
            old(self).wf(),
        ensures
            final(self).wf(),
            final(self)@ == old(self)@.after_call(
                OracleCall::Reveal {
                    caller,
                    current_block,
                    block_timestamp,
                    commitment_id,
                    secret: secret@,
                },
            ),
            match r {
                Ok((number, event)) => {
                    &&& old(self)@.reveal_error(caller, current_block, commitment_id, secret@)
                        is None
                    &&& hash_of(secret@) == old(self)@.commitments[commitment_id as int]
                        .commit_hash@
                    &&& current_block >= old(self)@.commitments[commitment_id as int].reveal_block
                    &&& number != 0
                    &&& number == revealed_number(secret@, current_block, block_timestamp)
                    &&& final(self)@ == old(self)@.after_reveal(commitment_id, number)
                    &&& final(self)@.random_number(commitment_id) == Some(number)
                    &&& event == (Revealed {
                        committer: caller,
                        commitment_id,
                        random_number: number,
                        revealed_at_block: current_block,
                    })
                },
                Err(e) => {
                    &&& old(self)@.reveal_error(caller, current_block, commitment_id, secret@)
                        == Some(e)
                    &&& final(self)@ == old(self)@
                },
            },
    {
        if commitment_id >= self.commitment_counter {
            return Err(ContractError::CommitmentNotFound);
        }
        let commitment = self.commitments[commitment_id as usize];
        if commitment.committer != caller {
            return Err(ContractError::InvalidSecret);
        }
        if commitment.revealed {
            return Err(ContractError::AlreadyRevealed);
        }
        if current_block < commitment.reveal_block {
            return Err(ContractError::RevealTooEarly);
        }
        let computed_hash = self.hash_secret(secret.as_slice());
        if !same_bytes(&computed_hash, &commitment.commit_hash) {
            assert(computed_hash@ != commitment.commit_hash@) by {
                if computed_hash@ == commitment.commit_hash@ {
                    assert(computed_hash =~= commitment.commit_hash);
                }
            }
            return Err(ContractError::InvalidSecret);
        }
        let random_number = self.generate_random_number(
            secret.as_slice(),
            current_block,
            block_timestamp,
        );
        let random_number = if random_number == 0 {
            1
        } else {
            random_number
        };
        self.commitments[commitment_id as usize] = Commitment {
            revealed: true,
            random_number,
            ..commitment
        };
        assert(self@ == old(self)@.after_reveal(commitment_id, random_number));
        Ok(
            (
                random_number,
                Revealed {
                    committer: caller,
                    commitment_id,
                    random_number,
                    revealed_at_block: current_block,
                },
            ),
        )
    }

    /// The number of a commitment, where it is revealed.
    pub fn get_random_number(&self, commitment_id: u32) -> (r: Option<u64>)
        requires
            self.wf(),
        ensures
            r == self@.random_number(commitment_id),
            r matches Some(number) ==> number != 0,
    {
        if commitment_id >= self.commitment_counter {
            return None;
        }
        let c = self.commitments[commitment_id as usize];
        if c.revealed && c.random_number != 0 {
            Some(c.random_number)
        } else {
            None
        }
    }

    /// The commitment with the given id, if there is one.
    pub fn get_commitment(&self, commitment_id: u32) -> (r: Option<Commitment>)
        requires
            self.wf(),
        ensures
            r == (if commitment_id < self@.commitments.len() {
                Some(self@.commitments[commitment_id as int])
            } else {
                None
            }),
    {
        if commitment_id < self.commitment_counter {
            Some(self.commitments[commitment_id as usize])
        } else {
            None
        }
    }

    /// The hash of `input`: see [`hash_of`].
    pub fn hash_secret(&self, input: &[u8]) -> (output: [u8; 32])
        ensures
            output@ == hash_of(input@),
    {
        let mut output = [0u8; 32];
        let mut i: usize = 0;
        while i < input.len()
            invariant
                i <= input.len(),
                forall|lane: int|
                    0 <= lane < 32 ==> output[lane] == xor_fold(input@.take(i as int), 32, lane),
            decreases input.len() - i,
        {
            let ghost before = output;
            output[i % 32] = output[i % 32] ^ input[i];
            proof {
                assert forall|lane: int| 0 <= lane < 32 implies output[lane] == xor_fold(
                    input@.take(i + 1),
                    32,
                    lane,
                ) by {
                    lemma_xor_fold_step(input@, i as int, 32, lane);
                    assert(before[lane] == xor_fold(input@.take(i as int), 32, lane));
                }
            }
            i += 1;
        }
        assert(input@.take(i as int) =~= input@);
        assert(output@ =~= hash_of(input@));
        output
    }

    /// The number derived from `secret` and the block: see
    /// [`mixed_number`].
    pub fn generate_random_number(
        &self,
        secret: &[u8],
        block_number: BlockNumber,
        block_timestamp: Timestamp,
    ) -> (number: u64)
        ensures
            number == mixed_number(secret@, block_number, block_timestamp),
    {
        let ghost buffer = mix_buffer(secret@, block_number, block_timestamp);
        let block_bytes = block_number_bytes(block_number);
        let time_bytes = timestamp_bytes(block_timestamp);
        let mut combined = [0u8; 64];
        let secret_len: usize = if secret.len() < 32 {
            secret.len()
        } else {
            32
        };
        let mut i: usize = 0;
        while i < secret_len
            invariant
                i <= secret_len <= 32,
                secret_len <= secret.len(),
                forall|k: int| 0 <= k < i ==> combined[k] == secret[k],
                forall|k: int| i <= k < 64 ==> combined[k] == 0,
            decreases secret_len - i,
        {
            combined[i] = secret[i];
            i += 1;
        }
        let mut i: usize = 0;
        while i < 4
            invariant
                i <= 4,
                buffer.len() == 64,
                forall|k: int| 0 <= k < 32 ==> combined[k] == buffer[k],
                forall|k: int| 32 <= k < 32 + i ==> combined[k] == block_bytes[k - 32],
                forall|k: int| 32 + i <= k < 64 ==> combined[k] == 0,
            decreases 4 - i,
        {
            combined[32 + i] = block_bytes[i];
            i += 1;
        }
        let mut i: usize = 0;
        while i < 8
            invariant
                i <= 8,
                buffer.len() == 64,
                forall|k: int| 0 <= k < 36 ==> combined[k] == buffer[k],
                forall|k: int| 36 <= k < 36 + i ==> combined[k] == time_bytes[k - 36],
                forall|k: int| 36 + i <= k < 64 ==> combined[k] == 0,
                forall|k: int| 0 <= k < 8 ==> time_bytes[k] == le_byte(block_timestamp as int, k),
            decreases 8 - i,
        {
            combined[36 + i] = time_bytes[i];
            i += 1;
        }
        assert(combined@ =~= buffer);

        let mut hash_bytes = [0u8; 8];
        let mut i: usize = 0;
        while i < 64
            invariant
                i <= 64,
                combined@ == buffer,
                forall|lane: int|
                    0 <= lane < 8 ==> hash_bytes[lane] == xor_fold(buffer.take(i as int), 8, lane),
            decreases 64 - i,
        {
            let ghost before = hash_bytes;
            hash_bytes[i % 8] = hash_bytes[i % 8] ^ combined[i];
            proof {
                assert forall|lane: int| 0 <= lane < 8 implies hash_bytes[lane] == xor_fold(
                    buffer.take(i + 1),
                    8,
                    lane,
                ) by {
                    lemma_xor_fold_step(buffer, i as int, 8, lane);
                    assert(before[lane] == xor_fold(buffer.take(i as int), 8, lane));
                }
            }
            i += 1;
        }
        assert(buffer.take(64) =~= buffer);

        let mut i: usize = 0;
        while i < 4
            invariant
                i <= 4,
                forall|k: int| 0 <= k < 4 ==> block_bytes[k] == le_byte(block_number as int, k),
                forall|lane: int|
                    0 <= lane < i ==> hash_bytes[lane] == mixed_byte(
                        secret@,
                        block_number,
                        block_timestamp,
                        lane,
                    ),
                forall|lane: int|
                    i <= lane < 8 ==> hash_bytes[lane] == xor_fold(buffer, 8, lane),
                buffer == mix_buffer(secret@, block_number, block_timestamp),
            decreases 4 - i,
        {
            hash_bytes[i] = hash_bytes[i] ^ block_bytes[i].wrapping_mul(17);
            i += 1;
        }
        assert(hash_bytes@ =~= Seq::new(
            8,
            |lane: int| mixed_byte(secret@, block_number, block_timestamp, lane),
        ));
        number_from_bytes(&hash_bytes)
    }
}

/// A revealed commitment stays revealed: a second reveal by its committer
/// is refused with `AlreadyRevealed`, whatever the block and the secret, and
/// a reveal by anyone else with `InvalidSecret`.
pub proof fn law_reveal_happens_once(
    oracle: RNGView,
    committer: AccountId,
    current_block: BlockNumber,
    commitment_id: u32,
    secret: Seq<u8>,
    number: u64,
    caller: AccountId,
    later_block: BlockNumber,
    other_secret: Seq<u8>,
)
    requires
        oracle.valid(),
        oracle.reveal_error(committer, current_block, commitment_id, secret) is None,
        number != 0,
    ensures
        ({
            let after = oracle.after_reveal(commitment_id, number);
            &&& after.valid()
            &&& after.random_number(commitment_id) == Some(number)
            &&& after.reveal_error(committer, later_block, commitment_id, other_secret) == Some(
                ContractError::AlreadyRevealed,
            )
            &&& caller != committer ==> after.reveal_error(
                caller,
                later_block,
                commitment_id,
                other_secret,
            ) == Some(ContractError::InvalidSecret)
        }),
{
}

/// No commitment can be revealed sooner than the minimum delay after it was
/// made: every reveal before `committed_at_block + min_reveal_blocks` is
/// refused.
pub proof fn law_reveal_waits_for_the_delay(
    oracle: RNGView,
    caller: AccountId,
    current_block: BlockNumber,
    commitment_id: u32,
    secret: Seq<u8>,
)
    requires
        oracle.valid(),
        commitment_id < oracle.commitments.len(),
        current_block < oracle.commitments[commitment_id as int].committed_at_block
            + oracle.min_reveal_blocks,
    ensures
        oracle.reveal_error(caller, current_block, commitment_id, secret) is Some,
{
}

/// The derived number fits sixty-four bits, and the number a reveal returns
/// is never zero.
pub proof fn law_revealed_number_is_positive(
    secret: Seq<u8>,
    block_number: BlockNumber,
    block_timestamp: Timestamp,
)
    ensures
        0 <= mixed_number(secret, block_number, block_timestamp) <= u64::MAX,
        0 < revealed_number(secret, block_number, block_timestamp) <= u64::MAX,
{
}

/// Every call, failed or not, leaves a valid oracle valid, and leaves every
/// commitment in place: none is removed, and none is changed but by its own
/// reveal.
pub proof fn law_call_keeps_commitments(oracle: RNGView, call: OracleCall, commitment_id: u32)
    requires
        oracle.valid(),
        commitment_id < oracle.commitments.len(),
    ensures
        oracle.after_call(call).valid(),
        oracle.after_call(call).min_reveal_blocks == oracle.min_reveal_blocks,
        commitment_id < oracle.after_call(call).commitments.len(),
        oracle.after_call(call).commitments[commitment_id as int]
            != oracle.commitments[commitment_id as int] ==> {
            &&& call matches OracleCall::Reveal { commitment_id: revealed, .. }
            &&& revealed == commitment_id
            &&& oracle.call_error(call) is None
        },
{
    law_call_keeps_validity(oracle, call);
}

/// Every call, failed or not, leaves a valid oracle valid.
pub proof fn law_call_keeps_validity(oracle: RNGView, call: OracleCall)
    requires
        oracle.valid(),
    ensures
        oracle.after_call(call).valid(),
{
    let after = oracle.after_call(call);
    if oracle.call_error(call) is None {
        match call {
            OracleCall::Commit { caller, current_block, commit_hash, reveal_block } => {
                assert forall|id: int| 0 <= id < after.commitments.len() implies ({
                    let c = #[trigger] after.commitments[id];
                    &&& c.revealed == (c.random_number != 0)
                    &&& c.reveal_block >= c.committed_at_block + after.min_reveal_blocks
                }) by {
                    if id < oracle.commitments.len() {
                        assert(after.commitments[id] == oracle.commitments[id]);
                    }
                }
            },
            OracleCall::Reveal {
                caller,
                current_block,
                block_timestamp,
                commitment_id,
                secret,
            } => {
                law_revealed_number_is_positive(secret, current_block, block_timestamp);
                assert forall|id: int| 0 <= id < after.commitments.len() implies ({
                    let c = #[trigger] after.commitments[id];
                    &&& c.revealed == (c.random_number != 0)
                    &&& c.reveal_block >= c.committed_at_block + after.min_reveal_blocks
                }) by {
                    let before = oracle.commitments[id];
                    assert(before.reveal_block >= before.committed_at_block
                        + oracle.min_reveal_blocks);
                }
            },
        }
    }
}

/// Every sequence of calls leaves a valid oracle valid.
pub proof fn law_calls_keep_validity(oracle: RNGView, calls: Seq<OracleCall>)
    requires
        oracle.valid(),
    ensures
        oracle.after_calls(calls).valid(),
    decreases calls.len(),
{
    if calls.len() > 0 {
        law_calls_keep_validity(oracle, calls.drop_last());
        law_call_keeps_validity(oracle.after_calls(calls.drop_last()), calls.last());
    }
}

/// A revealed commitment is final: whatever calls follow, it stays as it
/// is, number included, and every further reveal of it is refused, with
/// `AlreadyRevealed` where its committer calls and with `InvalidSecret`
/// where anyone else does.
pub proof fn law_revealed_commitment_is_final(
    oracle: RNGView,
    commitment_id: u32,
    calls: Seq<OracleCall>,
    caller: AccountId,
    current_block: BlockNumber,
    secret: Seq<u8>,
)
    requires
        oracle.valid(),
        commitment_id < oracle.commitments.len(),
        oracle.commitments[commitment_id as int].revealed,
    ensures
        ({
            let later = oracle.after_calls(calls);
            let commitment = oracle.commitments[commitment_id as int];
            &&& commitment_id < later.commitments.len()
            &&& later.commitments[commitment_id as int] == commitment
            &&& later.random_number(commitment_id) == Some(commitment.random_number)
            &&& later.reveal_error(caller, current_block, commitment_id, secret) == Some(
                if caller == commitment.committer {
                    ContractError::AlreadyRevealed
                } else {
                    ContractError::InvalidSecret
                },
            )
        }),
    decreases calls.len(),
{
    if calls.len() > 0 {
        let earlier = oracle.after_calls(calls.drop_last());
        law_revealed_commitment_is_final(
            oracle,
            commitment_id,
            calls.drop_last(),
            caller,
            current_block,
            secret,
        );
        law_calls_keep_validity(oracle, calls.drop_last());
        law_call_keeps_commitments(earlier, calls.last(), commitment_id);
    }
}

} // verus!
