//! Staking operations: stake, unstake, claim rewards, and the derived
//! addresses of the stake and state buffers.
//!
//! A stake record moves from uninitialized to active when staked, to closed
//! (`amount == 0`) when unstaked after maturity; rewards may be claimed
//! repeatedly while it is active, each claim adding to the cumulative
//! `rewards_claimed` total.

use crate::account::LedgerAction;
use crate::error::E9thTokenError;
use crate::identity::{lemma_identity_bytes_round_trip, Identity};
use crate::processor::{get_current_epoch, spec_current_epoch};
use crate::state::{
    lemma_program_state_len, lemma_stake_account_len, sat_add_u64, sat_sub_u64,
    serialize_account_data, AccountRecord, ProgramState, StakeAccount,
};
use vstd::prelude::*;

verus! {

/// What `process_stake` returns and leaves in the state and stake buffers,
/// at a given current epoch.
pub open spec fn spec_stake(
    state: Seq<u8>,
    stake: Seq<u8>,
    user_key: Identity,
    user_is_signer: bool,
    amount: u64,
    period: u64,
    current_epoch: u64,
) -> (Result<(), E9thTokenError>, Seq<u8>, Seq<u8>) {
    match ProgramState::decoding(state) {
        None => (Err(E9thTokenError::InvalidAccountData), state, stake),
        Some(st) => {
            if !st.staking_enabled {
                (Err(E9thTokenError::InvalidStakePeriod), state, stake)
            } else if !user_is_signer {
                (Err(E9thTokenError::Unauthorized), state, stake)
            } else if period < st.min_stake_period || period > st.max_stake_period {
                (Err(E9thTokenError::InvalidStakePeriod), state, stake)
            } else if amount == 0 {
                (Err(E9thTokenError::InvalidAmount), state, stake)
            } else if stake.len() == 0 {
                (Err(E9thTokenError::AccountNotInitialized), state, stake)
            } else {
                let sa = StakeAccount {
                    owner: user_key,
                    amount,
                    start_epoch: current_epoch,
                    period,
                    rewards_claimed: 0,
                    bump: 0,
                };
                if stake.len() < 65 {
                    (Err(E9thTokenError::InvalidAccountData), state, stake)
                } else {
                    let st2 = ProgramState {
                        total_staked: sat_add_u64(st.total_staked, amount),
                        ..st
                    };
                    (Ok(()), st2.encoding(), sa.encoding() + stake.skip(65))
                }
            }
        },
    }
}

/// What `process_unstake` returns (the amount released) and leaves in the
/// state and stake buffers, at a given current epoch.
pub open spec fn spec_unstake(
    state: Seq<u8>,
    stake: Seq<u8>,
    user_key: Identity,
    user_is_signer: bool,
    current_epoch: u64,
) -> (Result<u64, E9thTokenError>, Seq<u8>, Seq<u8>) {
    if !user_is_signer {
        (Err(E9thTokenError::Unauthorized), state, stake)
    } else {
        match StakeAccount::decoding(stake) {
            None => (Err(E9thTokenError::InvalidAccountData), state, stake),
            Some(sa) => {
                if sa.owner != user_key {
                    (Err(E9thTokenError::Unauthorized), state, stake)
                } else if current_epoch < sa.start_epoch + sa.period {
                    (Err(E9thTokenError::StakeNotMature), state, stake)
                } else {
                    match ProgramState::decoding(state) {
                        None => (Err(E9thTokenError::InvalidAccountData), state, stake),
                        Some(st) => {
                            let st2 = ProgramState {
                                total_staked: sat_sub_u64(st.total_staked, sa.amount),
                                ..st
                            };
                            let sa2 = StakeAccount { amount: 0, ..sa };
                            (Ok(sa.amount), st2.encoding(), sa2.encoding())
                        },
                    }
                }
            },
        }
    }
}

/// What `process_claim_rewards` returns and leaves in the stake buffer, at a
/// given current epoch; the state buffer is only read.
pub open spec fn spec_claim_rewards(
    state: Seq<u8>,
    stake: Seq<u8>,
    user_key: Identity,
    user_is_signer: bool,
    destination_key: Identity,
    current_epoch: u64,
) -> (Result<LedgerAction, E9thTokenError>, Seq<u8>) {
    if !user_is_signer {
        (Err(E9thTokenError::Unauthorized), stake)
    } else {
        match StakeAccount::decoding(stake) {
            None => (Err(E9thTokenError::InvalidAccountData), stake),
            Some(sa) => {
                if sa.owner != user_key {
                    (Err(E9thTokenError::Unauthorized), stake)
                } else {
                    match ProgramState::decoding(state) {
                        None => (Err(E9thTokenError::InvalidAccountData), stake),
                        Some(st) => {
                            let pending = sa.spec_rewards(current_epoch, st.reward_rate);
                            if pending == 0 {
                                (Err(E9thTokenError::InvalidAmount), stake)
                            } else {
                                let sa2 = StakeAccount {
                                    rewards_claimed: sat_add_u64(sa.rewards_claimed, pending),
                                    ..sa
                                };
                                (
                                    Ok(
                                        LedgerAction::RewardPayout {
                                            destination: destination_key,
                                            amount: pending,
                                        },
                                    ),
                                    sa2.encoding(),
                                )
                            }
                        },
                    }
                }
            },
        }
    }
}

/// The staking operations.
pub struct StakeProcessor;

impl StakeProcessor {
    /// Opens a stake: demands enabled staking, a signing user, a period
    /// within the configured bounds, a non-zero amount and a pre-provisioned
    /// stake buffer; writes the fresh record (started at the current epoch)
    /// and raises `total_staked`, stopping at the 64-bit maximum.
    pub fn process_stake(
        state_data: &mut Vec<u8>,
        stake_data: &mut Vec<u8>,
        user_key: &Identity,
        user_is_signer: bool,
        amount: u64,
        period: u64,
    ) -> (r: Result<(), E9thTokenError>)
        ensures
            ({
                let expect = spec_stake(
                    old(state_data)@,
                    old(stake_data)@,
                    *user_key,
                    user_is_signer,
                    amount,
                    period,
                    spec_current_epoch(),
                );
                r == expect.0 && final(state_data)@ == expect.1 && final(stake_data)@ == expect.2
            }),
    {
        let st = match ProgramState::read_from(state_data.as_slice()) {
            Ok(s) => s,
            Err(e) => {
                return Err(e);
            },
        };
        if !st.staking_enabled {
            return Err(E9thTokenError::InvalidStakePeriod);
        }
        if !user_is_signer {
            return Err(E9thTokenError::Unauthorized);
        }
        if period < st.min_stake_period || period > st.max_stake_period {
            return Err(E9thTokenError::InvalidStakePeriod);
        }
        if amount == 0 {
            return Err(E9thTokenError::InvalidAmount);
        }
        if stake_data.len() == 0 {
            return Err(E9thTokenError::AccountNotInitialized);
        }
        let current_epoch = get_current_epoch();
        let sa = StakeAccount::new(*user_key, amount, period, current_epoch, 0);
        proof {
            lemma_stake_account_len(sa);
        }
        serialize_account_data(stake_data, &sa)?;
        let st2 = ProgramState { total_staked: st.total_staked.saturating_add(amount), ..st };
        proof {
            lemma_program_state_len(st2);
        }
        serialize_account_data(state_data, &st2)?;
        proof {
            assert(final(state_data)@ =~= st2.encoding());
        }
        Ok(())
    }

    /// Closes a mature stake: demands the recorded owner as a signer and a
    /// reached maturity; lowers `total_staked` by the staked amount,
    /// stopping at zero, zeroes the record's amount, and returns the amount
    /// that was released.
    pub fn process_unstake(
        state_data: &mut Vec<u8>,
        stake_data: &mut Vec<u8>,
        user_key: &Identity,
        user_is_signer: bool,
    ) -> (r: Result<u64, E9thTokenError>)
        ensures
            ({
                let expect = spec_unstake(
                    old(state_data)@,
                    old(stake_data)@,
                    *user_key,
                    user_is_signer,
                    spec_current_epoch(),
                );
                r == expect.0 && final(state_data)@ == expect.1 && final(stake_data)@ == expect.2
            }),
    {
        if !user_is_signer {
            return Err(E9thTokenError::Unauthorized);
        }
        let sa = match StakeAccount::read_from(stake_data.as_slice()) {
            Ok(s) => s,
            Err(e) => {
                return Err(e);
            },
        };
        if !(sa.owner == *user_key) {
            return Err(E9thTokenError::Unauthorized);
        }
        let current_epoch = get_current_epoch();
        if !sa.is_mature(current_epoch) {
            return Err(E9thTokenError::StakeNotMature);
        }
        let st = match ProgramState::read_from(state_data.as_slice()) {
            Ok(s) => s,
            Err(e) => {
                return Err(e);
            },
        };
        let released = sa.amount;
        let st2 = ProgramState { total_staked: st.total_staked.saturating_sub(released), ..st };
        proof {
            lemma_program_state_len(st2);
        }
        serialize_account_data(state_data, &st2)?;
        let sa2 = StakeAccount { amount: 0, ..sa };
        proof {
            lemma_stake_account_len(sa2);
        }
        serialize_account_data(stake_data, &sa2)?;
        proof {
            assert(final(state_data)@ =~= st2.encoding());
            assert(final(stake_data)@ =~= sa2.encoding());
        }
        Ok(released)
    }

    /// Pays out pending rewards: demands the recorded owner as a signer and
    /// a non-zero payable amount under the epoch-based law at the live
    /// reward rate; owes the payout to the host and adds it to the record's
    /// cumulative `rewards_claimed`, stopping at the 64-bit maximum.
    pub fn process_claim_rewards(
        state_data: &Vec<u8>,
        stake_data: &mut Vec<u8>,
        user_key: &Identity,
        user_is_signer: bool,
        destination_key: &Identity,
    ) -> (r: Result<LedgerAction, E9thTokenError>)
        ensures
            ({
                let expect = spec_claim_rewards(
                    state_data@,
                    old(stake_data)@,
                    *user_key,
                    user_is_signer,
                    *destination_key,
                    spec_current_epoch(),
                );
                r == expect.0 && final(stake_data)@ == expect.1
            }),
    {
        if !user_is_signer {
            return Err(E9thTokenError::Unauthorized);
        }
        let sa = match StakeAccount::read_from(stake_data.as_slice()) {
            Ok(s) => s,
            Err(e) => {
                return Err(e);
            },
        };
        if !(sa.owner == *user_key) {
            return Err(E9thTokenError::Unauthorized);
        }
        let st = match ProgramState::read_from(state_data.as_slice()) {
            Ok(s) => s,
            Err(e) => {
                return Err(e);
            },
        };
        let current_epoch = get_current_epoch();
        let pending_rewards = sa.calculate_rewards(current_epoch, st.reward_rate);
        if pending_rewards == 0 {
            return Err(E9thTokenError::InvalidAmount);
        }
        let sa2 = StakeAccount {
            rewards_claimed: sa.rewards_claimed.saturating_add(pending_rewards),
            ..sa
        };
        proof {
            lemma_stake_account_len(sa2);
        }
        serialize_account_data(stake_data, &sa2)?;
        proof {
            assert(final(stake_data)@ =~= sa2.encoding());
        }
        Ok(LedgerAction::RewardPayout { destination: *destination_key, amount: pending_rewards })
    }
}

/// The derived address and bump that the host's address scheme assigns to a
/// list of seeds under a program id, if any: a pure function of its
/// arguments, left uninterpreted.
pub uninterp spec fn derived_address(seeds: Seq<Seq<u8>>, program_id: Seq<u8>) -> Option<
    (Seq<u8>, u8),
>;

/// Relies on solana_program's Pubkey::try_find_program_address: for a given
/// seed list and program id the result is deterministic, and a returned
/// address is 32 bytes; on unusable seeds it returns nothing rather than
/// failing.
#[verifier::external_body]
fn find_derived_address(seeds: &Vec<Vec<u8>>, program_id: &Vec<u8>) -> (r: Option<(Vec<u8>, u8)>)
    requires
        program_id@.len() == 32,
    ensures
        match r {
            Some(p) => derived_address(seeds@.map_values(|s: Vec<u8>| s@), program_id@) == Some(
                (p.0@, p.1),
            ) && p.0@.len() == 32,
            None => derived_address(seeds@.map_values(|s: Vec<u8>| s@), program_id@) is None,
        },
{
    let key = solana_program::pubkey::Pubkey::try_from(program_id.as_slice()).unwrap();
    let refs: Vec<&[u8]> = seeds.iter().map(|s| s.as_slice()).collect();
    match solana_program::pubkey::Pubkey::try_find_program_address(&refs, &key) {
        Some((pda, bump)) => Some((pda.to_bytes().to_vec(), bump)),
        None => None,
    }
}

/// The seed prefix of a stake buffer's derived address: the bytes of
/// "stake".
pub open spec fn stake_seed() -> Seq<u8> {
    seq![115u8, 116u8, 97u8, 107u8, 101u8]
}

/// The seed of the state buffer's derived address: the bytes of
/// "program_state".
pub open spec fn program_state_seed() -> Seq<u8> {
    seq![112u8, 114u8, 111u8, 103u8, 114u8, 97u8, 109u8, 95u8, 115u8, 116u8, 97u8, 116u8, 101u8]
}

impl StakeProcessor {
    /// The derived address of a user's stake buffer: seeds "stake", the
    /// user's identity, and the extra seed.
    pub fn get_stake_account_pda(program_id: &Identity, user: &Identity, seed: &[u8]) -> (r: Result<
        (Identity, u8),
        E9thTokenError,
    >)
        ensures
            match derived_address(seq![stake_seed(), user.bytes(), seed@], program_id.bytes()) {
                Some(p) => r matches Ok(x) && x.0.bytes() == p.0 && x.1 == p.1,
                None => r == Err::<(Identity, u8), E9thTokenError>(
                    E9thTokenError::InvalidAccountData,
                ),
            },
    {
        let mut seeds: Vec<Vec<u8>> = Vec::new();
        let prefix: Vec<u8> = vec![115u8, 116u8, 97u8, 107u8, 101u8];
        proof {
            assert(prefix@ =~= stake_seed());
        }
        seeds.push(prefix);
        seeds.push(user.to_bytes());
        seeds.push(vstd::slice::slice_to_vec(seed));
        let pid = program_id.to_bytes();
        proof {
            assert(seeds@.map_values(|s: Vec<u8>| s@) =~= seq![
                stake_seed(),
                user.bytes(),
                seed@,
            ]);
        }
        match find_derived_address(&seeds, &pid) {
            Some(p) => {
                let id = Identity::read_bytes(p.0.as_slice(), 0);
                proof {
                    assert(p.0@.subrange(0, 32) =~= p.0@);
                    lemma_identity_bytes_round_trip(p.0@);
                }
                Ok((id, p.1))
            },
            None => Err(E9thTokenError::InvalidAccountData),
        }
    }

    /// The derived address of the program state buffer: the single seed
    /// "program_state".
    pub fn get_program_state_pda(program_id: &Identity) -> (r: Result<
        (Identity, u8),
        E9thTokenError,
    >)
        ensures
            match derived_address(seq![program_state_seed()], program_id.bytes()) {
                Some(p) => r matches Ok(x) && x.0.bytes() == p.0 && x.1 == p.1,
                None => r == Err::<(Identity, u8), E9thTokenError>(
                    E9thTokenError::InvalidAccountData,
                ),
            },
    {
        let mut seeds: Vec<Vec<u8>> = Vec::new();
        let prefix: Vec<u8> = vec![
            112u8,
            114u8,
            111u8,
            103u8,
            114u8,
            97u8,
            109u8,
            95u8,
            115u8,
            116u8,
            97u8,
            116u8,
            101u8,
        ];
        proof {
            assert(prefix@ =~= program_state_seed());
        }
        seeds.push(prefix);
        let pid = program_id.to_bytes();
        proof {
            assert(seeds@.map_values(|s: Vec<u8>| s@) =~= seq![program_state_seed()]);
        }
        match find_derived_address(&seeds, &pid) {
            Some(p) => {
                let id = Identity::read_bytes(p.0.as_slice(), 0);
                proof {
                    assert(p.0@.subrange(0, 32) =~= p.0@);
                    lemma_identity_bytes_round_trip(p.0@);
                }
                Ok((id, p.1))
            },
            None => Err(E9thTokenError::InvalidAccountData),
        }
    }
}

/// No staking operation run without the user's signature, and no unstake or
/// claim by anyone but the recorded owner, changes any buffer: each rejects
/// with `Unauthorized` before anything is written.
pub proof fn lemma_staking_ops_require_authorization(
    state: Seq<u8>,
    stake: Seq<u8>,
    user_key: Identity,
    user_is_signer: bool,
    destination_key: Identity,
    amount: u64,
    period: u64,
    current_epoch: u64,
)
    requires
        !user_is_signer || (StakeAccount::decoding(stake) matches Some(sa) && sa.owner != user_key),
    ensures
        !user_is_signer ==> ({
            let (r, s1, s2) = spec_stake(
                state,
                stake,
                user_key,
                user_is_signer,
                amount,
                period,
                current_epoch,
            );
            (r is Err && s1 == state && s2 == stake)
        }),
        ({
            let (r, s1, s2) = spec_unstake(state, stake, user_key, user_is_signer, current_epoch);
            r == Err::<u64, E9thTokenError>(E9thTokenError::Unauthorized) && s1 == state && s2
                == stake
        }),
        ({
            let (r, s2) = spec_claim_rewards(
                state,
                stake,
                user_key,
                user_is_signer,
                destination_key,
                current_epoch,
            );
            r == Err::<LedgerAction, E9thTokenError>(E9thTokenError::Unauthorized) && s2 == stake
        }),
{
}

/// An unstake before maturity fails with `StakeNotMature` and leaves both
/// the staked amount and the aggregate `total_staked` untouched.
pub proof fn lemma_unstake_before_maturity_changes_nothing(
    state: Seq<u8>,
    stake: Seq<u8>,
    user_key: Identity,
    current_epoch: u64,
)
    requires
        StakeAccount::decoding(stake) is Some,
        StakeAccount::decoding(stake).unwrap().owner == user_key,
        current_epoch < StakeAccount::decoding(stake).unwrap().start_epoch + StakeAccount::decoding(
            stake,
        ).unwrap().period,
    ensures
        ({
            let (r, s1, s2) = spec_unstake(state, stake, user_key, true, current_epoch);
            r == Err::<u64, E9thTokenError>(E9thTokenError::StakeNotMature) && s1 == state && s2
                == stake
        }),
{
}

} // verus!
